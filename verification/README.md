# rign

`rign` manages several Node.js versions on Windows: it lists, installs,
uninstalls and switches between them, and keeps the `PATH` variable pointing
at the tool and at the active version.

The crate is verified with Verus.

- `src/` is the verified library: version numbers and requirements
  (`version`), the release list and the choice among releases
  (`node_version`), installed versions and the active link
  (`local_version`), the entries of `PATH` (`env`), and the decisions of each
  command (`cli`). The regular expressions that recognise version numbers
  are run by the `regex` crate (`pattern`); string helpers are in `text`.
- `app/` is the command-line program: argument parsing, network, file system,
  the Windows environment, prompts and output. It asks the library for every
  decision and carries it out.
- `tests/` runs the library on concrete values.
