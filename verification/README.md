# rissue

A small issue tracker. `src/` is the verified library (Verus):

- `status` — the four issue statuses, their names and CSS classes;
- `text` — string replacement, suffix tests and decimal formatting;
- `digest` — SHA-256 (via `sha2`) written in bcrypt Base64 (via `base64ct`);
- `auth` — password digests, registration, login and token claims;
- `requests` — the checks and records behind the forms that change issues;
- `pages` — the HTML of the issue list, an issue page and the comment feed.

`app/` is the actix-web server around it: routes, SQLite storage (sqlx),
session tokens (jsonwebtoken) and the files it serves.
