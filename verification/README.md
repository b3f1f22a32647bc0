# recsys_prep

Data preparation for a grocery recommender, written in Verus.

* `src/` is the verified library:
  * `millis` renders durations, `files` joins data paths and renders sizes;
  * `json` parses and pretty-prints JSON documents (through `serde_json`) and
    navigates them by keys and indices, with typed accessors whose errors name
    the path they failed at;
  * `provide` splits product metadata into the flat, normalized, category and
    "also viewed" tables, and their restrictions to products with item ids;
  * `dictionary`, `sets`, `db` and `load` turn those tables and the reviews into
    database rows, with repeated strings replaced by dense dictionary ids;
  * `pattern` and `style` hold the regular-expression rewriting of review
    styles and image lists (through the `regex` crate) and parse them;
  * `text` and `vec_mut` are the string and byte-buffer helpers.
* `app/` is the command-line program around it: reading zipped CSV and JSON
  files, reading product records with `serde`, writing zipped CSV, and
  inserting rows into SQLite with `diesel`.
* `tests/` runs the library on concrete inputs.
