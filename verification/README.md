# comm

A private two-party chat server: two accounts, real-time messages over a
WebSocket, message history in SQLite with encrypted bodies, encrypted photo
attachments with thumbnails, link previews, presence and activity logs, and a
privacy mode unlocked by password.

The library (`src/`) holds the logic, each function with a Verus contract:

| module | what it decides |
| --- | --- |
| `auth` | login redirects, sessions and their cookie, the lockout after failed passwords, who is online, which uploads are accepted |
| `users` | the users file (usernames with Argon2id password hashes) and the check of a password against it |
| `pages` | the login page for each step and error, and the chat page |
| `chat` | the WebSocket protocol: what a client event leads to, what is broadcast after the store answers, who receives what |
| `store` | how a stored row's body is read, which columns an older database lacks |
| `attachment_crypto` | XChaCha20-Poly1305 encryption of attachments and key files |
| `thumbnail` | thumbnails of photos and the names of stored files |
| `link_preview` | finding a link in a message, checking URLs and addresses, reading page metadata |
| `preview_fetch` | the steps of fetching a preview, as a state machine |
| `notifier` | ntfy presence notifications |
| `clock` | the time zone of activity timestamps |
| `passwords` | Argon2id hashes for the users file |
| `encoding`, `text`, `keyed` | percent-encoding, hexadecimal and decimal text; string helpers; a map keyed by strings |

`app/` is the program around it: the HTTP routes and the WebSocket loop, the
SQLite queries, files, `curl`, DNS and the environment.  It also runs the two
maintenance commands, `hash-password` and `backfill-thumbnails`.
