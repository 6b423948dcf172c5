# boro

The output of a review run: a human-readable report, and the same report as a
JSON document.

The report is kept in two parts. What the models said (the quick summary, the
findings and the mail texts) is for the standard output, so that it can be piped
on as it is; the token and time accounting is for the standard error. That the
first part does not depend on the second is proved (`src/laws.rs`).

## Layout

- `src/` is the library, verified with Verus. It turns a `serde_json::Value` into
  lines of text and prints nothing.
  - `json`: what a JSON value holds, and how it is read
  - `text`, `wrap`: words, lines, padding and word wrapping
  - `style`, `page`, `format`: colours, runs of lines, headings and times
  - `usage`, `stats`: token usage, the table of steps, the usage section
  - `commit`, `plan`, `findings`: what is shown of a commit
  - `report`: the report as a whole
  - `document`: the report as JSON
  - `laws`, `layout_laws`, `wrap_laws`: what holds of the report, of its layout
    and of word wrapping
- `app/` detects terminals and prints.
- `tests/` runs the library.

How a token count is abbreviated is the caller's choice: the functions that show
one take a function from `u64` to `String`.

What is not proved stands in doc comments at the items that call `serde_json`,
`owo-colors` and `String::push`.
