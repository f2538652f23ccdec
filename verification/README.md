# ddo_data

The game-data pipeline and read-only API behind DDO Tools: Maetrim's DDOBuilderV2 XML data files
are read into a SQLite database, which an HTTP server exposes as a versioned public API.

The decisions the pipeline makes are a Verus-verified library; the file, database and network
work around them is ordinary Rust.

## Layout

| Path | What |
|---|---|
| `src/xml/` | Every upstream record (items, effects, requirement blocks, feats, races, classes, enhancement trees, spells, augments, sets, quests, patrons, item buff templates) folded from its child elements, with what each element means stated in the contracts. |
| `src/map/` | Upstream vocabulary onto ours: item placement, augment slot types, bonus types, buffs, effects, materials. |
| `src/rows/` | The values the database rows hold: display strings, item plans, the quest index that links drops to quests, the name caches, modifier, feat, spell and requirement rows, the build stamp. |
| `src/diff.rs` | Item-name coverage of a build against a previous database. |
| `src/api/` | The API's decisions: paging, name search, list filters, errors, ETags. |
| `src/model.rs` | The closed vocabularies the schema stores. |
| `src/text.rs` | The character-level operations the rest is written with. |
| `app/` | The command line (`build`, `diff`, `icons`, `serve`): XML reading, SQLite, the axum server. |
| `tests/` | Scenarios on concrete values. |

## Running

```bash
ddo-data build --source upstream/Output/DataFiles --schema schema.sql --out ddo.db
ddo-data diff --db ddo.db --legacy old.db
DDO_DB_PATH=ddo.db ddo-data serve
```

`--schema` is the SQL that creates the tables and installs the seed vocabularies (stats, bonus
types, weapon types, equipment slots); `--buff-map` and `--effect-map` name the mapping tables
(`data/buff_map.toml` and `data/effect_map.toml` by default).
