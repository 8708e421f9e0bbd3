# gws_cli

`gws` is a JSON-only command-line client for Google Workspace (Gmail, Drive,
Docs, Sheets) meant to be driven by agents: results go to standard output as
JSON, errors to standard error as `{"error": {"code", "message", "suggestion"}}`,
with exit code 2 for authentication errors, 3 for other errors that Google
answered, and 1 otherwise.

## Layout

- `src/` is the library, verified with Verus. It decides everything the
  program does: the request each command makes (URL, method, JSON body,
  multipart framing), how an answer is read (JSON, empty body, API error as
  `CODE|message`), what gets printed, the MIME messages that `gmail send`
  composes, the OAuth flows' form parameters, authorization URL and redirect
  parsing, token freshness, service-account assertions and the command
  schema. Each public function has a contract over a mathematical model
  (`Seq<char>` for text, `JsonV` for JSON values), and the proof functions
  state the laws that hold across functions (for instance, that the code
  carried by the OAuth redirect comes back unchanged from `extract_code`).
  - `text`, `codec`, `json`: text utilities, percent-encoding and base64,
    the JSON model.
  - `client`, `output`: requests, responses, error reports and exit codes.
  - `auth`: configuration, tokens and the authentication flows' decisions.
  - `gmail`, `drive`, `docs`, `sheets`, `schema`, `paths`: the commands.
- `app/` is the program around it: argument parsing (clap), files, standard
  input, HTTP (reqwest), the local redirect server, the clock, and the
  conversions between the library's values and their serde forms.
- `tests/` exercises the library on concrete values.
