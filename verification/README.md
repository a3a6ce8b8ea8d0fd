# cypress_astro

Verified core of the Cypress telescope-control server: the camera-frame
conversions, the BNO085 IMU sample history and calibration rules, and the
sky-catalog search logic, written in Verus with their contracts proved.

## Layout

- `src/` — the verified library.
  - `raw_frame` — 8-bit, packed RAW10 and packed RAW12 frames to an 8-bit
    image plus a 2x2-binned copy, and the size check for a frame.
  - `rotate` — nearest-neighbour rotation with a square crop along a 16.16
    fixed-point walk, and the check that the walk stays within `i32`.
  - `imu_history` — motion classification, the sensor watchdog, the bounded
    sample history and the lookup of the sample for a plate solve.
  - `alignment` — the camera/IMU alignment state and the rules by which a
    calibration solution is adopted, locked and saved.
  - `text`, `strings` — byte- and character-level text helpers (trimming,
    decimal numbers, lines, comma fields).
  - `comet` — parsing of uploaded comet orbital elements and routing of the
    upload service.
  - `catalog_query` — construction of the SQL text and arguments of a
    catalog search, and the display rules of result rows.
  - `decrowd` — grouping of crowded results and pagination.
  - `sky` — search filters, constellation names and entry lookup of the
    in-memory sky catalog.
  - `catalog_meta` — catalog descriptions, object types and solar-system
    rows.
  - `laws` — properties that span several operations.
- `tests/` — tests of the library on concrete values.
- `app/` — the server around the library: hardware access, SQLite, HTTP,
  floating-point geometry and ephemerides, and the interfaces of the
  telescope engine.
