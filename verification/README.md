# k2

K2 is a stream-processing framework with a small command language and a code
generator for the processors, libraries and applications that the language
describes. The library under `src/` is written in Verus, and Verus proves each body
against its contract. The few functions that only call into the standard
library or an outside crate say in their contracts what that call is known
to give, and no more; one that hands out a sending end of a channel says
nothing of it.

## Layout

- `src/text.rs`, `src/name_map.rs`, `src/numbers.rs`: texts, an
  insertion-ordered table keyed by name, and decimal numbers.
- `src/k2_stream/`: the stream framework: errors, memories, states,
  parameters, connections and their order, stream blocks, chains and
  operative modes, the stream controller, processor libraries and the
  logger's routing.
- `src/k2_lang/`: the first form of the command language: parser, syntax
  tree and its own code generator.
- `src/k2lang/`: the second form of the language: parser and abstract syntax
  tree.
- `src/k2_coder/` and `src/k2coder/`: the code generators of the two forms:
  processors, libraries, applications and stream configurations, and the
  generator that routes each command to the project it concerns.
- `src/interfaces/`: the TCP client block.
- `app/`: the command-line tool: it reads commands from the standard input,
  runs them through the stages of the library, and does the file, build-tool,
  library-loading and logging work that the library leaves to its caller.
- `tests/`: the tests of the library.

Where a step needs the file system or the build tool, the library returns
the step to take and a second function takes the outcome, so that the
decisions on both sides of the step stay verified.
