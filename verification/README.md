# toli

Tools for language models: a Rust function, described by its documentation
comment and argument types, becomes a tool with a definition (name,
description, typed arguments), a descriptor in the OpenAI function-calling
format, and a handler that converts the JSON arguments of a call.

## Layout

- `src/` is the library, verified with Verus:
  - `definition`: tool definitions and argument types;
  - `json`, `numeric`, `args`: JSON values as plain data, the reading of
    numbers and booleans written as text, and the conversion of a call's
    arguments following a definition;
  - `data`, `int_conversions`: the converted values and their conversions
    into Rust types;
  - `open_ai`: descriptors built from definitions;
  - `tool_set`: the registry that routes a call to its handler;
  - `naming`, `docs`, `signature`: what the `tool` attributes read from a
    function (default descriptions, struct names, documentation sections,
    argument types);
  - `text`, `string_map`: strings as character sequences, and a map keyed by
    strings that keeps insertion order.
- `app/` is the unverified runtime around it: the tool traits, JSON text and
  `serde`, floating-point values, asynchronous dispatch, and the expansion
  of the `tool` and `async_tool` attributes with `syn` and `quote`.
- `tests/` exercises the library.
