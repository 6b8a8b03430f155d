# Instavox

The rules of a social network that federates over ActivityPub, as a verified library, and the
server around it.

- `src/` is the library. It decides: who may see, change or delete what; how forms, addresses,
  documents and pages are read and put together; which answer a request gets. Every function
  states in its contract what it returns, and Verus proves it. Laws that span several functions
  stand beside them as public proof functions named `law_...`.
- `tests/` runs the library on concrete values.
- `app/` is the server: routes, sessions, queries, files, mail and the exchange with other
  servers. It loads what a decision needs, asks the library, and does what it says.
- `extras/sql/` holds the scripts that make the tables, views and functions of the database.
  The server runs them at start, from the directory that `SQL_DIR` names.

## Modules of the library

| Modules | Contents |
| --- | --- |
| `text`, `number`, `encoding`, `weburl` | texts, decimal numbers, percent encoding, addresses |
| `web`, `page`, `session`, `auth` | requests and answers, page headers, sign-in, passwords |
| `profile`, `settings`, `uploads` | profiles, their settings, uploaded images |
| `friends`, `notifications`, `messenger` | relationships, notices, threads and groups |
| `posts`, `post_actions`, `comments`, `visibility`, `ranking` | feeds, reactions, comments |
| `links`, `markup` | link previews and the images of linked pages |
| `community`, `moderation`, `search` | communities, moderation, search results |
| `federation` | actors, notes, activities, the inbox and WebFinger |
