# as3_parser

Lexical analysis for ActionScript 3, with the first layer of its parser,
written in Verus and verified.

- `src/tokenizer.rs` scans InputElementDiv tokens (identifiers, reserved
  words, punctuators, numeric, string and regular expression literals), XML
  tag and content tokens, and skips whitespace and comments. Each scan is
  specified by spec functions over the characters of the source: which token
  comes out, where it ends, which line it is on, and when scanning fails.
- `src/parser.rs` holds the parser's token stream: moving to the next token,
  consuming and expecting tokens with the diagnostics for what was expected,
  and classifying operators. `src/directive_context.rs` holds the context
  a directive is parsed in, with the labels in scope and where `break` and
  `continue` may go.
- `src/source.rs`, `src/location.rs` and `src/diagnostics.rs` hold source
  files with their comments, line table and diagnostics, locations, columns,
  and message formatting.
- `src/keywords.rs`, `src/token.rs`, `src/operator.rs`,
  `src/operator_precedence.rs`, `src/character_validation.rs`, `src/ast.rs`
  and `src/util.rs` hold reserved words, tokens, operators and their
  precedence, character classes, small syntax-tree types and numeric literal
  conversions.

`app/` is a command-line program that tokenizes a file and writes its tokens
as JSON and its diagnostics as text. `tests/` holds the tests.
