# blue_flame

Verified editor logic of the Blue Flame game editor.

- `src/` is the library, checked by Verus: the project list and which
  project is selected, the objects of a scene (creation with unique labels,
  selection, deletion, blueprint followers), radio-button groups, the
  editor's menus and key handling, the templates of a new project, and the
  text operations they rest on.
- `app/` is a terminal front end for the project screen: it keeps the
  project list on disk (postcard), runs `cargo new` and writes the files of
  new projects, and deletes projects.
- `tests/` exercises the library on concrete values.
