# prismatic

The configuration broker of the Prismatic dock, as a verified library.

- `src/` holds the library, proved with Verus:
  - `config`: the schema-v1 configuration, its defaults and validation rules;
  - `store`: the revision-checked store of pinned favorites and what opening a
    stored document gives;
  - `catalog`, `service`: installed applications, first-run seeding, the checks
    the service makes before a change (stated over what the catalog and the file
    system answer), adapter registrations, desktop actions;
  - `dbus`: the D-Bus surface, with the named error each refusal is answered with;
  - `session`, `settings`: session detection and the computing parts of the
    settings application (Plasma scripts, dialog wording, the settings form);
  - `properties`: laws that relate several store operations;
  - `text`: character-level helpers the rules are written with.
- `tests/` exercises the library on concrete values.
- `app/` is the program around it: the D-Bus service (files, bus, GLib calls) and
  the GTK settings application.
