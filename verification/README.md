# hale

Verified pieces of the Hale toolchain, written in Verus.

- `ast`, `model`: the syntax tree the desugaring passes walk, and its
  mathematical view (names as `Seq<char>`, lists as `Seq`).
- `topic_table`: the declared topics of a program, each with its payload
  type and its wire subject (the dot-joined chain of own subjects, root
  first; a topic whose parent chain meets a cycle or a missing parent keeps
  its own subject).
- `desugar`: `desugar_topics`, which rewrites topic references in bus blocks
  and sends into literal subjects; its contract is the exact rewritten tree,
  and it is proved idempotent.
- `intra_locus`: `desugar_intra_locus_topics`, which turns sends on a topic
  published and subscribed by one and the same locus into direct handler
  calls; proved idempotent and to keep the program's topology.
- `builtins`: the interpreter's builtin table (`print`, `println`,
  `time::sleep`) and what each builtin decides: the text to write, the time
  to sleep, or the error.
- `lowering`: the code generator's `std::*` path calls: argument checks,
  how each argument is prepared, the runtime function called, when the call
  fails, and how its value is made from the runtime's return; `call_plan`
  gives the exact sequence of steps the emitted code performs.
- `cli`: the decisions of the `lotus` command.
- `strmap`, `decimal`: a name-keyed map and decimal formatting.

`app/` holds what touches the process: writing to stdout, sleeping, reading
files, and the `lotus` command flow around a caller-supplied front end.
