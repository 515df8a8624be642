# asteroid_vm

The abstract machine that runs compiled Asteroid programs: evaluation of
terms, first-class pattern matching, the symbol table with its scopes, the
built-in operators, and the report of an uncaught exception. Every function
of the library carries a contract that Verus proves.

Layout:

- `src/ast.rs`: the nodes of a program and their kinds.
- `src/memory.rs`: the store that nodes live in, addressed by handles.
- `src/state.rs`: namespaces, scopes, the compiled functions by name, and
  the rest of the running state.
- `src/walk.rs`: evaluation of terms; `src/index.rs`: reading and writing
  through index expressions, and declaring the bindings of a match.
- `src/unify.rs`: pattern matching; `src/equality.rs`: structural equality.
- `src/builtins.rs`: the arithmetic, logical and comparison operators.
- `src/exception.rs`, `src/report.rs`: exceptions and their report.
- `src/host.rs`: what a running program supplies: the running of its
  compiled functions, and floating-point arithmetic, which the library does
  not model.
- `app/`: the compiled-function type of a program, and the exit routine
  that prints a report and ends the process.

Evaluation runs on a budget of steps (`State::fuel`, which starts at
`u64::MAX`), so that every function of the library is proved to terminate;
a run that exhausts it ends with a `VMError`.

The store of nodes is a vector addressed by index handles, and the
namespaces and the table of compiled functions are vectors of named
entries, so that contracts can speak of each as a sequence: the store is
shared and written in place, which Verus does not reason about when it is
kept in reference-counted cells, and maps keyed by strings give the
verifier nothing to work with. A namespace never binds a name twice, which
the state's well-formedness states.
