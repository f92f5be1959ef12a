# guepardos-welcome

The welcome application of GuepardOS: a window that shows the state of the
system, offers package profiles to install, quick actions that open system
tools, and a first-steps checklist.

- `src/` is the library, verified with Verus: the checklist state and its
  file name, the package profiles and what of them is missing, the steps of an
  installation run, the choice of the program behind a quick action, the
  reading of command outputs and release files for the system overview, and
  the texts shown in the window.
- `app/` is the GTK program around it: it runs commands, looks up programs,
  reads and writes files, and hands what it found to the library.
- `tests/` runs the library on concrete values.
