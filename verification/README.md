# Oxide Explorer

A GTK4/libadwaita file manager whose decisions are verified with Verus.

- `src/` is the library `oxide_explorer`: navigation history, directory
  listings and their order, the column sorters and the row filter, size,
  date and permission texts, batch-rename rules, search, archives, tags,
  bookmarks and recent connections, key bindings, cloud sync badges, the
  context menu, and the texts the window shows. Every function carries a
  contract; the properties that relate several functions are stated and
  proved as `lemma_*` proof functions next to them.
- `tests/` runs the library on concrete values.
- `app/` is the application: widgets, dialogs, file-system work on Tokio,
  the Lua plugin interpreter and the configuration files.
