# mirror_store

The logic of the Mirror OS software center, verified with Verus: which applications the catalog
lists and what it says of them, how search results are filtered, what it takes to install or
uninstall an application, and what the Home Manager options of a program are.

- `src/` is the verified library. Each module states what its functions do over the sequences of
  characters, maps and sets that stand for their data. Functions whose work needs the outside world
  take what was read from it as plain values and say what to do next as plain values.
- `app/` reads the database and the file system, runs the commands and draws the screen.
- `tests/` runs the library.

| Module | Content |
| --- | --- |
| `text` | text operations |
| `json` | JSON documents |
| `command` | command lines and paths |
| `app_id`, `app_info` | applications |
| `backend` | names of the sources of applications |
| `backend::catalog`, `backend::infos` | the catalog and its entries |
| `backend::installed` | installed applications and their icons |
| `backend::desktop` | icon names and desktop files on this machine |
| `backend::fts` | full-text search |
| `backend::nix` | installing through Home Manager |
| `backend::hm_options` | Home Manager options |
| `backend::nix_value` | values written as Nix expressions |
| `operation` | operations and their progress |
| `search_filter`, `nav`, `priority` | filters, pages and the order of sources |

What is taken on trust: how `serde_json` reads JSON, `str::to_lowercase`, `String::from_utf8_lossy`,
`String::push` and `Arc::clone`. Each stands behind one small function with a stated contract.
