# message_hub

A hub that relays notifications to members of a WeChat Work (企业微信)
corporation as text cards, and answers the callback-URL verification of the
WeChat Work API.

- `src/` is the verified library (Verus): signature checking and decryption of
  callback messages (`wx_corp`), the byte-wise lexicographic order and sort it
  relies on (`lexicographic`), the text cards and the decisions around sending
  them (`message`, `service::message`), token authentication
  (`service::auth`), member caching decisions (`user`) and the settings model
  (`config`). SHA-1, Base64, AES-256-CBC and lossy UTF-8 decoding are called
  through trusted wrappers whose results are named by uninterpreted spec
  functions.
- `app/` is the server around it: HTTP handlers, Redis, the database, the
  HTTP client of the API, and the framework wiring.
- `tests/` exercises the library on concrete values.
