# unreal_plugin_launcher

A launcher for Unreal projects with per-user plugin overrides. The `.uproject`
file stays untouched: overrides reach the editor as `-EnablePlugins=` and
`-DisablePlugins=` arguments.

The library under `src/` is verified with Verus:

- `text`, `sorting`, `string_map`, `paths`: character-sequence ordering, ASCII case
  folding, stable sorting by key, a string-keyed map, path joining and file
  name splitting.
- `config`: the per-user configuration keyed by EngineAssociation.
- `json`: the two calls into `serde_json`, each behind a trusted wrapper.
- `engine`: engine versions, the list of detected engines, finding the engine
  for a project, the editor executable.
- `plugins`: plugin lists, override states, the enable/disable lists.
- `association`, `launch`, `gui`: what association writes, the launch plan and
  command line, and the launcher window's state.

`app/` holds the program around it: command-line parsing, files, the registry,
`xdg-mime`, directory walks, the background scan thread and the egui window.
