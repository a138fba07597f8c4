# llms_client

Clients for chat-completion style LLM APIs (OpenAI ChatGPT and Google Gemini),
with the logic that keeps a conversation verified by Verus.

## Layout

- `src/` — the verified library.
  - `chatgpt/` — messages, sessions (history with a limit, streamed replies),
    the server-sent-event decoder of streamed responses, the client's
    configuration and the JSON body of its requests.
  - `gemini/` — parts, chats and sessions (merging, trimming, function
    responses, forgetting the last exchange), the search for file references
    in markdown (a caller's regular expression or the `![alt](url)` grammar)
    and the markdown-to-parts splitter, the selection of requested function
    calls and the recording of their results, and the JSON schemas of structs,
    enums and functions (doc comments, required fields, refused references).
  - `text.rs`, `deque.rs`, `foreign.rs` — whitespace and text conversions, the
    `VecDeque` accessors, and the declarations of the outside types and calls
    the library relies on.
- `tests/` — tests of the library on concrete values.
- `app/` — the unverified shell: HTTP requests and streams, file downloads,
  serde (de)serialisation, error types with `Display`, and the macros that run
  function calls.

Each session type states its invariant as a well-formedness predicate; the
laws that relate its operations (what a call keeps, what one call undoes) are
proved in the `session_laws` modules.

Verify with Verus from the crate root (`src/lib.rs`).
