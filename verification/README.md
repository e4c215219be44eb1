# CloseEnv

CloseEnv is a secretless repository scanner for the moment before a repository is made
public. It reports files and patterns that still look secret-bearing and never prints a secret
that it detected: a finding names a path, at most a line, and a label. The name of a variable
or of a package script is part of a label only where no detector finds anything in it.

The decisions are made by a library that is verified with Verus; a thin program around it
reads the disk, runs git and prints.

## Layout

- `src/` is the library. `scan` goes from a repository as it was found on disk to a report.
  `policy`, `listing`, `content` and `checks` are its steps, `detect`, `secrets`, `dotenv`,
  `paths` and `package` the rules, `report`, `render`, `json` and `sarif` its output, `cli`
  the command line. `text`, `order` and `number` hold what all of them need. Every rule is a
  specification function on sequences of characters, and every function is proved to compute
  what its rule says.
- `src/laws/` states what holds of the library as a whole: that reports are free of what the
  detectors find, that the parts of a report agree, what a policy changes, which files are
  looked at, why a scan can fail.
- `src/outside.rs` holds what is believed without proof: how bytes are decoded and how JSON is
  parsed. `src/text.rs` has a contract for `String::push`.
- `app/` is the program: files, directories, git, YAML, and the entropy of suspect values,
  which is a floating-point number.
- `tests/` runs the library on values in memory.

## Usage

```
closeenv scan [path] [--json|--sarif] [--staged] [--include-ignored]
              [--max-files <n>] [--max-file-bytes <bytes>] [--limit <n>] [--no-fail]
```

In a git repository, `--staged` looks at staged files alone. `--include-ignored` walks through all directories,
dependencies and build outputs too, but for those of version control.

The exit code is `1` when blocker findings are present, unless `--no-fail` is given, and `2`
when the scan could not be made.

## Configuration

`closeenv.yml` or `.closeenv.yml` at the root of the repository:

```yaml
closeenv:
  allow_value_env_paths:
    - .env.test
    - fixtures/**
  ignore_paths:
    - snapshots/**
  ignore_detectors:
    - signed-url
  max_files: 50000
  max_file_bytes: 1048576
```

Entries are exact paths or directories followed by `/**`. Allowed paths that look like secrets
do not count.
