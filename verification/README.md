# that_sky_ahook

Verified core of an in-game overlay and HTTP hook set for an Android game:

- `src/` — the library, verified with Verus:
  - `text`: character scanning with the exact meaning of `str::trim`,
    `find("->")`, `rfind(':')` and `trim_end_matches(':')`.
  - `rules`: the hook switches, the domain rewrite rules and the rule-text
    parser (`origin[:port] -> target[:port]`, separated by `,` `;` or newline).
  - `net_uri`: the game's URL record and the rewrite applied to it
    (force HTTP, first matching rule), C-string field copies.
  - `main_thread`: requests to the Android main thread, coalesced into a
    pending-op set with at most one task in flight, and the order a task
    runs them in; UTF-16/char cursor conversions.
  - `surface`, `layout`, `overlay`, `touch`: surface lifecycle, overlay
    geometry, tab/collapse state, Settings sync, gesture tracking.
- `tests/` — tests of the library on concrete values.
- `app/` — the Android glue (JNI, window setup, egui/wgpu rendering, hook
  installation) that calls the library.
