# zeroblog_server

A server that shows ZeroNet blogs (ZeroBlog sites) as plain HTML pages.

- `src/` is the library, verified with Verus: parsing of the settings
  (`args`), the data model of a ZeroBlog site (`schemas`), the page templates
  (`zero_site`), markdown and date rendering (`utils`), the choice of files to
  reload when the watcher reports a change (`file_watcher`) and the location of
  the static files that are served (`routes`).
- `app/` is the program around it: command-line parsing with clap, the HTTP
  routes with rocket, file watching with notify, and reading the JSON files
  with serde.
