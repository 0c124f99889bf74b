# jpk23

Converts Polish JPK_V7 tax documents of version 1 (`JPK_VAT(3)`) and version 2
(`JPK_V7M(2)` / `JPK_V7K(2)`) to the JPK_V7(3) layout, as a stream of XML events.

- `src/` is the converter, verified with Verus. It works on XML events of its own
  (`event::XmlEvent`) and is a state machine (`converter::ParserState`): each input
  event gives the events to write, the amounts of each finished row, and, for each
  control section, a request to compute its total. The contracts state the whole
  output of each step; `laws.rs` holds the properties that span steps (row counts,
  variant choice, namespaces, element names under the output prefix, choice
  elements, the taxpayer's e-mail, the form code).
- `app/` is the command-line program: it reads and writes the XML with `quick-xml`,
  sums the amounts in floating point, formats control totals and prints the summary.
- `tests/` convert whole documents and call the library's parts directly.
