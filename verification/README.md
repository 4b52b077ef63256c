# wakfu_builder

Equipment build optimiser for Wakfu, with the data model, the scoring rules
and the build search proved correct with Verus.

- `src/` is the verified library:
  - `models`: catalogue items and their mathematical models;
  - `stats`, `profile`, `sockets`, `scoring`: stat vectors, role/mode/range
    weights, enchantment rules and scores;
  - `ranking`: a stable sort by decreasing key;
  - `engine`: whole-build enchantment plans, per-item recommendations, totals;
  - `search`, `pruning`: the eligible items of each slot type and the
    search over three slot layouts, with the bounds that let it skip parts
    that cannot win;
  - `laws`: proved properties: the search's build scores at least as much as
    every valid build of eligible catalogue items that fills a layout; the
    enchantment plan scores at least as much as every allocation of the
    candidate statistics; builds are valid; settings round trips.

The search considers every such build. It skips a part of the search when the
sum of the bounds of its items (each item's own score and the gain of its best
enchantment) cannot beat the best build found so far; this leaves the result
unchanged, but in the worst case the running time still grows with the product
of the numbers of eligible items of the slots.
  - `tui`, `cli`, `commands`, `report`, `scraper`, `text`, `stat_names`: the
    decisions of the interactive screen, the command line, the desktop
    commands, the listings, the paging of the API, string helpers and the list
    of statistic names.
- `app/` is the program around it: HTTP requests, the cache file, the
  terminal interface and the command line.
- `tests/` runs the library on concrete catalogues.

Amounts are exact integers: statistics in hundredths of a point, weights in
thousandths, and scores in hundred-thousandths of a point.
