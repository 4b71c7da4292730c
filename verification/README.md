# profile-typenetwork

The Type Network profile of font checks for fontspector, with the logic of
every check verified by Verus.

- `src/` is the verified library. Each check is a function from font bytes
  (or the fonts of a family) to the statuses it reports, with a contract that
  says exactly which statuses come out. What a check reads out of a font
  (a table field, the name strings, glyph names, advance widths, the
  variation axes) is read by `fontations` behind small trusted wrappers in
  `src/fontdata.rs`, each of which names its result as a function of the
  font's bytes. `src/profile.rs` states the steps that build the profile.
- `tests/` runs the checks on fonts built with `write-fonts`.
- `app/` is the fontspector plugin: it registers the checks and the profile
  with fontspector, hands each check the bytes of the files it is given, and
  turns the reported statuses into fontspector's own.
