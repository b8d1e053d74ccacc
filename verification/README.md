# sealed_infra

The logic of the Sealed Infrastructure tools as a verified library: the functions in `src/`
carry contracts that Verus proves, except the few marked `#[verifier::external_body]`, which
call outside crates (sha2, hex, shell-escape, typed-path, git-url-parse) and whose contracts
state what those crates' sources do; `app/` is the `si` command-line program
around it (argument parsing, settings and configuration files, the file system, and the
`docker` and `git` processes).

## Modules

- `taskfile`, `task`, `deps_graph`: task files and their tasks — the checks a task file must
  pass (dependencies that exist and form no cycle, relative and absolute paths, caching
  rules), the variables a task receives, and the image name that caches a task's result.
- `cache`: SHA-256 hashes of text and bytes, and the `combine` of two hashes.
- `docker`: the `docker` command of the CLI — the `docker buildx build` and `docker run`
  command lines, the environment they run with, validation, and the merge of a YAML
  configuration file over the options.
- `containers`: the arguments of the `docker` invocations that create, run, inspect and copy
  between containers.
- `paths`: expansion of `$VARIABLE`, `..` and `~` in paths, without touching the disk.
- `git_url`: the repository URLs that are handed to git-url-parse, and the name it reads.
- `yaml`: a YAML document as plain values, and lookups in it.
- `k8s`, `operator`, `apps`, `cli`, `error`: Kubernetes object descriptions, the operator's
  reconciliation decisions, stored applications, the command line, and the error types with
  their messages.
- `str_map`, `ordering`, `text`, `shell`: ordered string maps, the order of strings, text
  helpers, and shell quoting.

## Laws

Besides the contracts of the functions, `src/` proves:

- `cache::law_hash_separates`, `cache::law_text_hash_separates`: equal hashes come from equal
  inputs unless SHA-256 collides; `cache::law_combine_separates`: `combine` separates both of
  its arguments in the same sense.
- `ordering::law_sort_ignores_order`: sorting distinct strings forgets their order.
- `task::law_image_name_ignores_variable_order`: a task's image name does not depend on the
  order of its variables or of their values.
