# App Inventory Generator

Finds the applications installed on a Linux system (menu apps, user-installed
terminal packages, Flatpaks and Snaps), checks each against a chosen target
distribution, and collects the chosen ones for an install script.

- `src/` is the verified library (Verus): text handling, the parsing of package
  manager listings and desktop files, the menu/terminal filtering, package
  resolution and Repology query building, sorting, selection, and the laws the
  library keeps (`src/laws.rs`).
- `app/` is the program around it: the egui window, the package manager
  commands, file system lookups and the Repology HTTP requests.
- `tests/` exercises the library on concrete inputs.

The script writer itself is not part of these sources: the Generate step
collects the selected packages with their resolutions and then reports that
no script writer is available, instead of writing
`~/app_inventory/<target>_app_install.sh`.
