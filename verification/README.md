# citebot

A bot that relays chat messages to an assistant service and shows its readers the
names of the files that the assistant cites.

The crate is a library in Verus: what the bot decides and computes, with contracts
that are proved.

- `src/webhook.rs`: the answering of a delivery of the chat service
- `src/conversation.rs`: the course of a job, from the question to the stored thread
- `src/stream.rs`, `src/paragraph.rs`: the streamed answer, cut into paragraphs
- `src/relay.rs`: what becomes of a whole answer
- `src/citation.rs`: citation markers turned into file names
- `src/context.rs`: what is remembered of a user, and for how long
- `src/openai.rs`, `src/telegram.rs`, `src/http.rs`: the requests, as values
- `src/storage.rs`, `src/summary.rs`, `src/details.rs`: the fetching and keeping of
  what the vector stores hold
- `src/config.rs`: the configuration of the bots and of the process
- `src/json.rs`, `src/utf8.rs`, `src/text.rs`, `src/decimal.rs`, `src/directory.rs`:
  documents, bytes, text, numbers, tables

The two state machines of a bot, and the one that fetches file names, say what is
to be done next; `app/` does it and reports what came of it. `app/` holds three
programs: the webhook receiver, `webhook_creator` and `list_vector_store`.
