# trello_assistant

A chat assistant over a Trello board: it mirrors the board in Redis, answers
questions about the cards (by asking an OpenAI-compatible model to turn the
question into a query, or by keyword detection when no model answers), runs
the query over the cards, and serves board statistics and webhook management.

- `src/` is the verified library (Verus): the query language and its
  execution, card search and filters, date extraction, prompts and analysis
  context, statistics, the Redis index of card ids, webhook event handling and
  registration planning, configuration, and the start-up state machine of a
  local model server. Each public function states its result exactly; the
  laws of the library (what a query's results satisfy, that sorting orders and
  rearranges, that groupings partition, what the id index keeps, how
  registration reuses webhooks, that start-up ends) are proof functions next
  to the code they speak of.
- `tests/` runs the library on concrete values.
- `app/` is the web service around it: HTTP routes (axum), Trello and model
  HTTP calls (reqwest), Redis, JSON forms of the library's types, and the
  floating-point hour sums of the time statistics.
