# sonata

The decisions of a package manager for PHP, compatible with Composer, as a Verus library: what a
manifest asks for, what a lock file says, which setting is in force, what is installed, and the
files that make classes loadable. Every function of the library states what it returns, and Verus
proves it.

- `src/` is the library.
  - `text`, `paths`, `sort`, `sorted`, `names`, `links`, `named_values`: strings, paths, lists
    and maps.
  - `json`, `json_laws`, `json_text`, `json_file`: JSON values, changes along a path, text, and
    documents in files.
  - `schema`, `repositories`, `loader`, `lock`, `lock_document`, `package`: manifests, lock
    files and packages.
  - `config`, `settings`: the configuration, and the command that reads and writes it.
  - `installer`: what is loaded, selected and installed, step by step.
  - `autoload`: the generated loader.
  - `http`, `downloader`, `cache`, `platform`: what is decided about requests, archives, caches
    and PHP.
  - `commands`: the other commands.
- `tests/` runs the library.
- `app/` is the program around it: arguments, files, network and processes.

Properties that relate several functions are public proof functions whose names start with `law_`.
What the library takes from other crates stands behind wrappers marked `external_body`; their
comments say what is taken on trust.
