# argenv

A declared, typed contract for a program's invocation surface (its argument
vector and its environment) together with the resolver that reads an
invocation against it, written in Verus.

- `src/` is the verified library: declarations (`Input`, `Arg`, `Env`), the
  rules `Input::check` applies, the projection to portable `Record`s, the
  argument scanner, resolution with precedence (argument, then environment,
  then default) and branch scoping, linting, and problem policies. Every
  public function states its result in `ensures`; `src/laws.rs` holds the
  properties that span functions.
- `app/` is the process edge: reading `std::env`, printing findings, exiting,
  serialising typed defaults with serde, and the `contract!` macro.
- `tests/` exercises the library on concrete values.
