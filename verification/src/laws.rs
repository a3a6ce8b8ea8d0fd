//! Properties that hold across the library's operations.
use vstd::prelude::*;
use crate::alignment::{bounded_push, calibration_action, CalibrationAction, CalibrationEvidence};
use crate::catalog_query::{
    base_search_clause, brightness_order, catalog_id_order, catalog_query_spec,
    condition_stage, free_of_placeholders, magnitude_clause, membership_op, name_order,
    opt_view, order_clause_spec, placeholder_count, placeholders, select_prefix, strings_view,
    text_stage, CatalogQuery, SortKey, DEFAULT_QUERY_LIMIT,
};
use crate::catalog_query::{sort_key_spec, RequestedOrdering, SortOverride};
use crate::comet::{collapse_double_spaces, comet_fields, comet_line_kind, CometLineKind};
use crate::imu_history::{spec_classify_motion, TrackerState};
use crate::text::{decimal_i32, trim};
use crate::strings::decimal_digits;
use crate::decrowd::{decrowded, first_close_group, has_close_leader};
use crate::imu_history::{nearest_upto, time_gap, ImuSample, NO_OFFSET_NANOS};
use crate::raw_frame::block_average;
use crate::rotate::{rotated_pixel, FixedPointWalk};
use vstd::arithmetic::div_mod::lemma_fundamental_div_mod_converse;

verus! {

/// When every sample lies closer than the starting offset to the requested
/// time, the sample chosen as nearest is the first of those with the smallest
/// gap.
pub proof fn law_nearest_is_first_minimum<Q>(s: Seq<ImuSample<Q>>, target: u128, n: int)
    requires
        1 <= n <= s.len(),
        forall|i: int| 0 <= i < n ==> time_gap(#[trigger] s[i].time_nanos, target) < NO_OFFSET_NANOS,
    ensures
        0 <= nearest_upto(s, target, n).0 < n,
        nearest_upto(s, target, n).1 == time_gap(s[nearest_upto(s, target, n).0].time_nanos, target),
        forall|i: int|
            0 <= i < n ==> time_gap(#[trigger] s[i].time_nanos, target) >= nearest_upto(s, target, n).1,
        forall|i: int|
            0 <= i < nearest_upto(s, target, n).0 ==> time_gap(#[trigger] s[i].time_nanos, target)
                > nearest_upto(s, target, n).1,
    decreases n,
{
    assert(nearest_upto(s, target, 0) == (0int, NO_OFFSET_NANOS as int));
    assert(time_gap(s[0].time_nanos, target) < NO_OFFSET_NANOS);
    if n > 1 {
        law_nearest_is_first_minimum(s, target, n - 1);
        assert(time_gap(s[n - 1].time_nanos, target) < NO_OFFSET_NANOS);
    }
}

/// No two group leaders of a decrowding are close to each other.
pub proof fn law_decrowd_leaders_apart(
    close: Seq<Vec<bool>>,
    n: int,
    leaders: Seq<usize>,
    group_of: Seq<usize>,
    g1: int,
    g2: int,
)
    requires
        decrowded(close, n, leaders, group_of),
        0 <= g1 < g2 < leaders.len(),
    ensures
        !close[leaders[g2] as int]@[leaders[g1] as int],
{
    let l2 = leaders[g2] as int;
    assert(leaders[g1] < leaders[g2]);
    assert(group_of[l2] == g2);
    assert(group_of[l2] < leaders.len());
    if has_close_leader(leaders, close[l2]@, l2) {
        assert(first_close_group(leaders, close[l2]@, l2, group_of[l2] as int));
        assert(false);
    } else {
        assert(!(leaders[g1] < l2 && close[l2]@[leaders[g1] as int]));
    }
}

/// A result that does not lead a group is close to its group's leader, which
/// comes before it, and is not close to the leader of any earlier group.
pub proof fn law_decrowd_member_joins_first_close_leader(
    close: Seq<Vec<bool>>,
    n: int,
    leaders: Seq<usize>,
    group_of: Seq<usize>,
    k: int,
)
    requires
        decrowded(close, n, leaders, group_of),
        0 <= k < n,
        leaders[group_of[k] as int] != k,
    ensures
        leaders[group_of[k] as int] < k,
        close[k]@[leaders[group_of[k] as int] as int],
        forall|g: int| 0 <= g < group_of[k] ==> !close[k]@[#[trigger] leaders[g] as int],
{
    assert(group_of[k] < leaders.len());
    assert(has_close_leader(leaders, close[k]@, k));
    assert(first_close_group(leaders, close[k]@, k, group_of[k] as int));
    assert forall|g: int| 0 <= g < group_of[k] implies !close[k]@[#[trigger] leaders[g] as int] by {
        assert(leaders[g] < leaders[group_of[k] as int]);
    }
}

/// A locked calibration is never downgraded to a provisional one, and the
/// mounting rotation in use changes only when the hardware was altered (a
/// mature, confident solution far from it) or when the new solution's
/// confidence is higher.
pub proof fn law_locked_calibration_changes_only_for_cause(
    mature: bool,
    evidence: CalibrationEvidence,
)
    ensures
        calibration_action(true, mature, evidence) != CalibrationAction::Bootstrap,
        calibration_action(true, mature, evidence) != CalibrationAction::BootstrapAndLock,
        calibration_action(true, mature, evidence) == CalibrationAction::HardwareReset ==> mature
            && evidence.confident && evidence.hardware_shifted,
        calibration_action(true, mature, evidence) == CalibrationAction::Upgrade
            ==> evidence.improves,
        calibration_action(true, mature, evidence) == CalibrationAction::Coast ==> !evidence.improves,
{
}

/// A calibration is locked only once the pool is mature and the solution
/// confident.
pub proof fn law_lock_needs_mature_confident_solution(
    locked: bool,
    mature: bool,
    evidence: CalibrationEvidence,
)
    ensures
        calibration_action(locked, mature, evidence) == CalibrationAction::BootstrapAndLock
            ==> !locked && mature && evidence.confident,
{
}

/// A bounded window that respects its capacity keeps respecting it, and its
/// newest element is the one just added.
pub proof fn law_bounded_push_keeps_capacity<T>(v: Seq<T>, x: T, cap: int)
    requires
        1 <= cap,
        v.len() <= cap,
    ensures
        bounded_push(v, x, cap).len() <= cap,
        bounded_push(v, x, cap).last() == x,
        bounded_push(v, x, cap).len() == (if v.len() == cap {
            cap
        } else {
            v.len() + 1int
        }),
{
}

/// Binning a block of four equal pixels gives that pixel value.
pub proof fn law_uniform_block_keeps_value(img: Seq<u8>, width: int, oy: int, ox: int)
    requires
        0 <= oy,
        0 <= ox,
        (2 * oy + 1) * width + 2 * ox + 1 < img.len(),
        img[2 * oy * width + 2 * ox] == img[2 * oy * width + 2 * ox + 1],
        img[2 * oy * width + 2 * ox] == img[(2 * oy + 1) * width + 2 * ox],
        img[2 * oy * width + 2 * ox] == img[(2 * oy + 1) * width + 2 * ox + 1],
    ensures
        block_average(img, width, oy, ox) == img[2 * oy * width + 2 * ox],
{
}

/// Collapsing double spaces never lengthens a catalog id.
pub proof fn law_collapse_never_longer(s: Seq<u8>)
    ensures
        collapse_double_spaces(s).len() <= s.len(),
    decreases s.len(),
{
    if s.len() >= 2 && s[0] == 32 && s[1] == 32 {
        law_collapse_never_longer(s.skip(2));
    } else if s.len() > 0 {
        law_collapse_never_longer(s.skip(1));
    }
}

/// A walk without rotation, one source pixel per output pixel from the
/// origin, crops the left square of the image unchanged.
pub proof fn law_unrotated_walk_crops(image: Seq<u8>, width: int, height: int, x: int, y: int)
    requires
        0 <= x < height,
        0 <= y < height,
        height <= width,
    ensures
        rotated_pixel(
            image,
            width,
            height,
            (FixedPointWalk {
                start_x: 0,
                start_y: 0,
                dx_src_x: 65536,
                dx_src_y: 0,
                dy_src_x: 0,
                dy_src_y: 65536,
            }),
            x,
            y,
        ) == image[y * width + x],
{
    lemma_fundamental_div_mod_converse(x * 65536 + 32768, 65536, x, 32768);
    lemma_fundamental_div_mod_converse(y * 65536 + 32768, 65536, y, 32768);
}

/// Placeholders of a concatenation add up.
broadcast proof fn lemma_placeholders_concat(a: Seq<char>, b: Seq<char>)
    ensures
        #[trigger] placeholder_count(a + b) == placeholder_count(a) + placeholder_count(b),
    decreases b.len(),
{
    if b.len() == 0 {
        assert(a + b =~= a);
    } else {
        assert((a + b).drop_last() =~= a + b.drop_last());
        lemma_placeholders_concat(a, b.drop_last());
    }
}

proof fn lemma_free_counts_none(s: Seq<char>)
    requires
        free_of_placeholders(s),
    ensures
        placeholder_count(s) == 0,
    decreases s.len(),
{
    if s.len() > 0 {
        lemma_free_counts_none(s.drop_last());
    }
}

proof fn lemma_single_placeholder()
    ensures
        placeholder_count("?"@) == 1,
{
    reveal_strlit("?");
    assert("?"@.drop_last() =~= Seq::<char>::empty());
    assert(placeholder_count(Seq::<char>::empty()) == 0);
    assert(placeholder_count("?"@) == placeholder_count("?"@.drop_last()) + 1);
}

/// The fixed pieces of the query text hold no placeholder.
proof fn lemma_fixed_text_is_free()
    ensures
        free_of_placeholders("SELECT c.catalog_entry, c.ra, c.dec, c.magnitude, c.catalog_label, c.object_type, c.broad_category, c.constellation, c.common_name, c.angular_size FROM catalog c WHERE "@),
        free_of_placeholders("ORDER BY (CASE WHEN c.common_name IS NULL OR c.common_name = '' THEN 1 ELSE 0 END) ASC, c.common_name ASC, CAST(c.catalog_entry AS INTEGER) ASC NULLS LAST, c.catalog_entry ASC"@),
        free_of_placeholders("ORDER BY (CASE c.catalog_label WHEN 'Planet' THEN 0 WHEN 'Moon' THEN 0 WHEN 'Solar System' THEN 0 WHEN 'Str' THEN 1 WHEN 'M' THEN 2 WHEN 'C' THEN 3 WHEN 'Col' THEN 4 WHEN 'NGC' THEN 5 WHEN 'IC' THEN 6 WHEN 'Asteroid' THEN 7 WHEN 'Comet' THEN 8 WHEN 'H' THEN 9 WHEN 'B' THEN 10 WHEN 'Sh2' THEN 11 WHEN 'Abl' THEN 12 WHEN 'Arp' THEN 13 WHEN 'SaA' THEN 14 WHEN 'SaM' THEN 15 WHEN 'SaR' THEN 16 WHEN 'Ta2' THEN 17 WHEN 'Har' THEN 18 WHEN 'RDS' THEN 19 WHEN 'EGC' THEN 20 ELSE 99 END) ASC, CAST(c.catalog_entry AS INTEGER) ASC NULLS LAST, c.catalog_entry ASC"@),
        free_of_placeholders("ORDER BY c.magnitude ASC NULLS LAST, CASE c.catalog_label WHEN 'M' THEN 1 WHEN 'C' THEN 2 WHEN 'Col' THEN 3 WHEN 'NGC' THEN 4 WHEN 'IC' THEN 5 WHEN 'H' THEN 6 WHEN 'B' THEN 7 WHEN 'Sh2' THEN 8 WHEN 'Abl' THEN 9 WHEN 'Arp' THEN 10 ELSE 11 END ASC"@),
        free_of_placeholders("1=1"@),
        free_of_placeholders(" AND "@),
        free_of_placeholders("("@),
        free_of_placeholders(" "@),
        free_of_placeholders(")"@),
        free_of_placeholders(" LIMIT "@),
        free_of_placeholders(" AND LOWER(catalog_label) "@),
        free_of_placeholders(" AND LOWER(object_type) "@),
        free_of_placeholders("IN"@),
        free_of_placeholders("NOT IN"@),
        free_of_placeholders(" ("@),
        free_of_placeholders("ORDER BY "@),
        free_of_placeholders(" DESC NULLS LAST"@),
        free_of_placeholders(","@),
        free_of_placeholders("(catalog_label || ' ' || catalog_entry LIKE "@),
        free_of_placeholders(" OR REPLACE(catalog_label || catalog_entry, ' ', '') LIKE "@),
        free_of_placeholders(" OR common_name LIKE "@),
        free_of_placeholders(" OR catalog_entry = "@),
        free_of_placeholders(" OR (catalog_label = "@),
        free_of_placeholders(" AND catalog_entry = "@),
        free_of_placeholders("))"@),
        free_of_placeholders(" OR catalog_label = "@),
        free_of_placeholders(" AND (magnitude IS NULL OR magnitude <= "@),
{
    reveal_strlit("SELECT c.catalog_entry, c.ra, c.dec, c.magnitude, c.catalog_label, c.object_type, c.broad_category, c.constellation, c.common_name, c.angular_size FROM catalog c WHERE ");
    reveal_strlit("ORDER BY (CASE WHEN c.common_name IS NULL OR c.common_name = '' THEN 1 ELSE 0 END) ASC, c.common_name ASC, CAST(c.catalog_entry AS INTEGER) ASC NULLS LAST, c.catalog_entry ASC");
    reveal_strlit("ORDER BY (CASE c.catalog_label WHEN 'Planet' THEN 0 WHEN 'Moon' THEN 0 WHEN 'Solar System' THEN 0 WHEN 'Str' THEN 1 WHEN 'M' THEN 2 WHEN 'C' THEN 3 WHEN 'Col' THEN 4 WHEN 'NGC' THEN 5 WHEN 'IC' THEN 6 WHEN 'Asteroid' THEN 7 WHEN 'Comet' THEN 8 WHEN 'H' THEN 9 WHEN 'B' THEN 10 WHEN 'Sh2' THEN 11 WHEN 'Abl' THEN 12 WHEN 'Arp' THEN 13 WHEN 'SaA' THEN 14 WHEN 'SaM' THEN 15 WHEN 'SaR' THEN 16 WHEN 'Ta2' THEN 17 WHEN 'Har' THEN 18 WHEN 'RDS' THEN 19 WHEN 'EGC' THEN 20 ELSE 99 END) ASC, CAST(c.catalog_entry AS INTEGER) ASC NULLS LAST, c.catalog_entry ASC");
    reveal_strlit("ORDER BY c.magnitude ASC NULLS LAST, CASE c.catalog_label WHEN 'M' THEN 1 WHEN 'C' THEN 2 WHEN 'Col' THEN 3 WHEN 'NGC' THEN 4 WHEN 'IC' THEN 5 WHEN 'H' THEN 6 WHEN 'B' THEN 7 WHEN 'Sh2' THEN 8 WHEN 'Abl' THEN 9 WHEN 'Arp' THEN 10 ELSE 11 END ASC");
    reveal_strlit("1=1");
    reveal_strlit(" AND ");
    reveal_strlit("(");
    reveal_strlit(" ");
    reveal_strlit(")");
    reveal_strlit(" LIMIT ");
    reveal_strlit(" AND LOWER(catalog_label) ");
    reveal_strlit(" AND LOWER(object_type) ");
    reveal_strlit("IN");
    reveal_strlit("NOT IN");
    reveal_strlit(" (");
    reveal_strlit("ORDER BY ");
    reveal_strlit(" DESC NULLS LAST");
    reveal_strlit(",");
    reveal_strlit("(catalog_label || ' ' || catalog_entry LIKE ");
    reveal_strlit(" OR REPLACE(catalog_label || catalog_entry, ' ', '') LIKE ");
    reveal_strlit(" OR common_name LIKE ");
    reveal_strlit(" OR catalog_entry = ");
    reveal_strlit(" OR (catalog_label = ");
    reveal_strlit(" AND catalog_entry = ");
    reveal_strlit("))");
    reveal_strlit(" OR catalog_label = ");
    reveal_strlit(" AND (magnitude IS NULL OR magnitude <= ");
}

proof fn lemma_digits_are_free(n: nat)
    ensures
        placeholder_count(decimal_digits(n)) == 0,
    decreases n,
{
    let d = ((n % 10) as u8 + 48u8) as char;
    if n < 10 {
        assert(seq![d].drop_last() =~= Seq::<char>::empty());
        assert(placeholder_count(Seq::<char>::empty()) == 0);
    } else {
        lemma_digits_are_free(n / 10);
        assert(decimal_digits(n).drop_last() =~= decimal_digits(n / 10));
    }
}

proof fn lemma_placeholder_list(n: nat)
    ensures
        placeholder_count(placeholders(n)) == n,
    decreases n,
{
    lemma_single_placeholder();
    if n > 1 {
        lemma_placeholder_list((n - 1) as nat);
        reveal_strlit(",?");
        reveal_strlit(",");
        reveal_strlit("?");
        assert(",?"@ =~= ","@ + "?"@);
        lemma_fixed_text_is_free();
        lemma_free_counts_none(","@);
        lemma_placeholders_concat(","@, "?"@);
        lemma_placeholders_concat(placeholders((n - 1) as nat), ",?"@);
    } else if n == 0 {
        assert(placeholder_count(Seq::<char>::empty()) == 0);
    }
}

proof fn lemma_free_text(s: Seq<char>)
    requires
        free_of_placeholders(s),
    ensures
        placeholder_count(s) == 0,
{
    lemma_free_counts_none(s);
}

proof fn lemma_base_clause_counts()
    ensures
        placeholder_count(base_search_clause()) == 4,
        placeholder_count(" OR (catalog_label = ? AND catalog_entry = ?))"@) == 2,
        placeholder_count(" OR catalog_label = ?)"@) == 1,
        placeholder_count(magnitude_clause()) == 1,
{
    broadcast use lemma_placeholders_concat;

    let p0 = "(catalog_label || ' ' || catalog_entry LIKE "@;
    let p1 = " OR REPLACE(catalog_label || catalog_entry, ' ', '') LIKE "@;
    let p2 = " OR common_name LIKE "@;
    let p3 = " OR catalog_entry = "@;
    let p4 = ")"@;
    let a0 = " OR (catalog_label = "@;
    let a1 = " AND catalog_entry = "@;
    let a2 = "))"@;
    let b0 = " OR catalog_label = "@;
    let m0 = " AND (magnitude IS NULL OR magnitude <= "@;
    let q = "?"@;
    reveal_strlit("(catalog_label || ' ' || catalog_entry LIKE ? OR REPLACE(catalog_label || catalog_entry, ' ', '') LIKE ? OR common_name LIKE ? OR catalog_entry = ?)");
    reveal_strlit(" OR (catalog_label = ? AND catalog_entry = ?))");
    reveal_strlit(" OR catalog_label = ?)");
    reveal_strlit(" AND (magnitude IS NULL OR magnitude <= ?)");
    reveal_strlit("(catalog_label || ' ' || catalog_entry LIKE ");
    reveal_strlit(" OR REPLACE(catalog_label || catalog_entry, ' ', '') LIKE ");
    reveal_strlit(" OR common_name LIKE ");
    reveal_strlit(" OR catalog_entry = ");
    reveal_strlit(")");
    reveal_strlit(" OR (catalog_label = ");
    reveal_strlit(" AND catalog_entry = ");
    reveal_strlit("))");
    reveal_strlit(" OR catalog_label = ");
    reveal_strlit(" AND (magnitude IS NULL OR magnitude <= ");
    reveal_strlit("?");
    assert(base_search_clause() =~= p0 + q + p1 + q + p2 + q + p3 + q + p4);
    assert(" OR (catalog_label = ? AND catalog_entry = ?))"@ =~= a0 + q + a1 + q + a2);
    assert(" OR catalog_label = ?)"@ =~= b0 + q + p4);
    assert(magnitude_clause() =~= m0 + q + p4);
    lemma_fixed_text_is_free();
    lemma_single_placeholder();
    lemma_free_text(p0);
    lemma_free_text(p1);
    lemma_free_text(p2);
    lemma_free_text(p3);
    lemma_free_text(p4);
    lemma_free_text(a0);
    lemma_free_text(a1);
    lemma_free_text(a2);
    lemma_free_text(b0);
    lemma_free_text(m0);
}

proof fn lemma_text_stage_counts(q: CatalogQuery)
    requires
        text_stage(q) is Some,
    ensures
        placeholder_count((text_stage(q)->0).0) == (text_stage(q)->0).1.len(),
{
    broadcast use lemma_placeholders_concat;

    match q.text_search {
        None => {
            assert(placeholder_count(Seq::<char>::empty()) == 0);
        },
        Some(_) => {
            lemma_base_clause_counts();
            lemma_fixed_text_is_free();
            lemma_free_text(" AND "@);
            lemma_free_text("("@);
        },
    }
}

proof fn lemma_membership_counts(head: Seq<char>, matching: bool, n: nat)
    requires
        free_of_placeholders(head),
    ensures
        placeholder_count(head + membership_op(matching) + " ("@ + placeholders(n) + ")"@) == n,
{
    broadcast use lemma_placeholders_concat;

    lemma_fixed_text_is_free();
    lemma_free_text(head);
    lemma_free_text("IN"@);
    lemma_free_text("NOT IN"@);
    lemma_free_text(" ("@);
    lemma_free_text(")"@);
    lemma_placeholder_list(n);
}

proof fn lemma_condition_counts(c: Option<String>)
    requires
        c matches Some(t) ==> free_of_placeholders(t@),
    ensures
        placeholder_count(condition_stage(c)) == 0,
{
    broadcast use lemma_placeholders_concat;

    lemma_fixed_text_is_free();
    lemma_free_text(" AND "@);
    match c {
        Some(t) => lemma_free_text(t@),
        None => assert(placeholder_count(Seq::<char>::empty()) == 0),
    }
}

proof fn lemma_order_counts(sort: SortKey, proximity: Option<Seq<char>>)
    requires
        proximity matches Some(p) ==> free_of_placeholders(p),
    ensures
        placeholder_count(order_clause_spec(sort, proximity)) == 0,
{
    broadcast use lemma_placeholders_concat;

    lemma_fixed_text_is_free();
    lemma_free_text(name_order());
    lemma_free_text(catalog_id_order());
    lemma_free_text(brightness_order());
    lemma_free_text("ORDER BY "@);
    lemma_free_text(" DESC NULLS LAST"@);
    if let Some(p) = proximity {
        lemma_free_text(p);
    }
}

/// Each `?` placeholder in the SQL text of a catalog search has exactly one
/// argument: the text holds as many placeholders as the argument list has
/// entries, provided the geometric conditions and the proximity expression
/// handed in hold none of their own.
pub proof fn law_placeholders_match_arguments(q: CatalogQuery)
    requires
        q.distance_condition matches Some(c) ==> free_of_placeholders(c@),
        q.elevation_condition matches Some(c) ==> free_of_placeholders(c@),
        q.proximity matches Some(p) ==> free_of_placeholders(p@),
    ensures
        match catalog_query_spec(q) {
            Some((sql, args)) => placeholder_count(sql) == args.len(),
            None => true,
        },
{
    broadcast use lemma_placeholders_concat;

    if text_stage(q) is Some {
        lemma_text_stage_counts(q);
        lemma_base_clause_counts();
        lemma_fixed_text_is_free();
        lemma_free_text(select_prefix());
        lemma_free_text("1=1"@);
        lemma_free_text(" "@);
        lemma_free_text(" LIMIT "@);
        lemma_membership_counts(
            " AND LOWER(catalog_label) "@,
            q.match_catalog_label,
            strings_view(q.catalog_label@).len(),
        );
        lemma_membership_counts(
            " AND LOWER(object_type) "@,
            q.match_object_type_label,
            strings_view(q.object_type_label@).len(),
        );
        lemma_condition_counts(q.distance_condition);
        lemma_condition_counts(q.elevation_condition);
        lemma_order_counts(q.sort, opt_view(q.proximity));
        let limit = match q.limit {
            Some(l) => l,
            None => DEFAULT_QUERY_LIMIT,
        };
        lemma_digits_are_free(limit as nat);
        assert(placeholder_count(Seq::<char>::empty()) == 0);
    }
}

/// A request for name order or catalog-id order is honoured whatever the
/// ordering field says; without such a request, results are ordered by sky
/// location exactly when that ordering is asked for, and by brightness
/// otherwise.
pub proof fn law_sort_requests_are_honoured(ordering: Option<RequestedOrdering>)
    ensures
        sort_key_spec(SortOverride::ByName, ordering) == SortKey::ByName,
        sort_key_spec(SortOverride::ByCatalogId, ordering) == SortKey::ByCatalogId,
        sort_key_spec(SortOverride::NoOverride, ordering) == SortKey::SkyLocation <==> ordering
            == Some(RequestedOrdering::SkyLocation),
        ordering != Some(RequestedOrdering::SkyLocation) ==> sort_key_spec(
            SortOverride::NoOverride,
            ordering,
        ) == SortKey::Brightness,
{
}

/// Every sample taken while the sensor warms up counts as lost, whether or
/// not it rotates; after warm-up no sample is lost, and a sample is moving
/// exactly when it rotates fast.
pub proof fn law_warm_up_samples_are_lost(rotating_fast: bool)
    ensures
        spec_classify_motion(true, rotating_fast) == TrackerState::Lost,
        spec_classify_motion(false, rotating_fast) != TrackerState::Lost,
        spec_classify_motion(false, rotating_fast) == TrackerState::Moving <==> rotating_fast,
{
}

/// With a locked calibration and a mature pool, a confident solution that
/// differs from the mounting rotation beyond the alteration threshold always
/// replaces it as a hardware reset, whether or not its confidence is higher;
/// without a locked calibration a solution is only ever bootstrapped, and it
/// is locked exactly when the pool is mature and the solution confident.
pub proof fn law_hardware_shift_resets_calibration(evidence: CalibrationEvidence, mature: bool)
    ensures
        evidence.confident && evidence.hardware_shifted ==> calibration_action(
            true,
            true,
            evidence,
        ) == CalibrationAction::HardwareReset,
        calibration_action(false, mature, evidence) == CalibrationAction::BootstrapAndLock
            <==> mature && evidence.confident,
        calibration_action(false, mature, evidence) == CalibrationAction::BootstrapAndLock
            || calibration_action(false, mature, evidence) == CalibrationAction::Bootstrap,
        !(mature && evidence.confident && evidence.hardware_shifted) ==> (calibration_action(
            true,
            mature,
            evidence,
        ) == CalibrationAction::Upgrade <==> evidence.improves),
{
}

/// The decimal value of the trimmed bytes `from..to` of a line, 0 when they
/// do not parse.
pub open spec fn parsed_or_zero(line: Seq<u8>, from: int, to: int) -> int {
    match decimal_i32(trim(line.subrange(from, to))) {
        Some(v) => v,
        None => 0,
    }
}

/// Each field of a comet record comes from its own byte columns of the line:
/// the designation from 0..12 (double spaces collapsed), the perihelion year
/// from 14..18 and month from 19..21 (0 when they do not parse), the day from
/// 22..29, the orbital elements from 30..39, 40..49, 50..59, 60..69 and
/// 70..79, and the magnitude parameters from 91..96 and 96..101. January and
/// February count as months 13 and 14 of the previous year in the Julian-day
/// terms; other months keep their year; for a year from 0 on the Gregorian
/// correction is 2 minus the centuries plus the quadricentennia.
pub proof fn law_comet_fields_come_from_their_columns(line: Seq<u8>)
    requires
        comet_line_kind(line) == CometLineKind::Record,
    ensures
        comet_fields(line).catalog_id == collapse_double_spaces(trim(line.subrange(0, 12))),
        comet_fields(line).year == parsed_or_zero(line, 14, 18),
        comet_fields(line).month == parsed_or_zero(line, 19, 21),
        comet_fields(line).day_fraction == trim(line.subrange(22, 29)),
        comet_fields(line).perihelion_distance == trim(line.subrange(30, 39)),
        comet_fields(line).eccentricity == trim(line.subrange(40, 49)),
        comet_fields(line).arg_perihelion == trim(line.subrange(50, 59)),
        comet_fields(line).ascending_node == trim(line.subrange(60, 69)),
        comet_fields(line).inclination == trim(line.subrange(70, 79)),
        comet_fields(line).abs_magnitude == trim(line.subrange(91, 96)),
        comet_fields(line).slope == trim(line.subrange(96, 101)),
        comet_fields(line).month > 2 ==> comet_fields(line).julian.0 == comet_fields(line).year
            && comet_fields(line).julian.1 == comet_fields(line).month,
        comet_fields(line).month <= 2 ==> comet_fields(line).julian.0 == comet_fields(line).year
            - 1 && comet_fields(line).julian.1 == comet_fields(line).month + 12,
        comet_fields(line).julian.0 >= 0 ==> comet_fields(line).julian.2 == 2
            - comet_fields(line).julian.0 / 100 + comet_fields(line).julian.0 / 400,
{
    let y = comet_fields(line).julian.0;
    if y >= 0 {
        assert((y / 100) / 4 == y / 400) by (nonlinear_arith)
            requires
                y >= 0,
        ;
    }
}

} // verus!
