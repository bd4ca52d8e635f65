# dx-story

Dioxus component stories and a browser catalog, with the command-line tools that set up,
serve, build and check a catalog. The rules of the catalog are a Verus-verified library;
the program around it reads files, runs tools and draws the user interface.

## Layout

- `src/` — the verified library (`dx_story`):
  - `stories`, `showcases`: story and story-set records, the registry that puts them in
    display order and reports the first invalid one, and lookup by identifiers;
  - `pagination`: catalog pages;
  - `catalog`, `preview_catalog`: catalog settings, sidebar search, routes and labels;
  - `markdown`: card summaries and the sanitization of rendered documentation;
  - `naming`, `macro_arguments`: the rules of the `#[story]` and `#[stories]` attributes;
  - `project`, `commands`, `init`: the command-line tools' decisions — choosing the package,
    example and features, the dependency walk, default and watched directories, source
    inventory limits, tool command lines,
    readiness, and the edits `init` plans;
  - `manifest`: the TOML documents `init` writes — the component manifest read and edited
    through toml_edit, and the new configuration file;
  - `text`: text operations the rest is stated over.
- `tests/` — tests of the library.
- `app/` — the `dx-story` program: configuration files, cargo metadata, processes, the
  Dioxus catalog components (stories and showcases), and the attribute expansion with `syn`.
