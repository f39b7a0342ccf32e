# duper

Duper is a human-friendly extension of JSON with extra types and semantic
identifiers. This crate holds its core, verified with Verus:

- `ast`: values, identifiers (strict and lenient), keys, objects without
  repeated keys, arrays, tuples, strings, bytes, floats.
- `builder`: building values out of the parse tree of Duper text, and
  reading integers in bases 2 to 36.
- `format`, `serializer`, `visitor::pretty_printer`, `pretty_printer`: the
  one-line and the indented text of values.
- `equality`: equality of values, ignoring identifiers and entry order.
- `types`: the well-known types an identifier names.
- `convert`: bytes as base64 strings, and the date and time of temporal text.
- `encoding`: standard base64.
- `diagnostics`: what an editor reports about parts of a document.
- `rejection`: taking Duper bodies over HTTP.
- `rpc`: Duper RPC messages, reading and writing them, a request builder,
  and a layered server's routing and response rules.

`app/` holds what stays outside the verified library: floating-point
conversion and the address checks that use std's network types.
