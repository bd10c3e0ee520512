# native

Terminal screens for the Windows registry, services, scheduled tasks and
firewall rules.

- `src/` is the library, verified with Verus: the character grid and the
  minimal terminal update, the dialogs and the line editor, the scrolling and
  filtered lists, registry paths and value formats, the rows and texts of each
  screen, the stable ordering of entries, and what each key does.
- `app/` is the program around it: the terminal (crossterm), the Windows
  registry, service manager, task scheduler and firewall (windows), and the
  event loops that hand the library keys and read results back. It starts as
  `regedit-tui`, `services-tui`, `taskschd-tui` or `wf-tui`, chosen by the
  name it runs under or by its first argument.
- `tests/` runs the library on concrete values.
