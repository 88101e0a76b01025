# tgstate

A private file store that keeps its files in a Telegram channel, with a web interface on top.

Files smaller than 19.5 MiB go to the channel as one document. All others are cut into chunks that are
uploaded several at a time, and a manifest names the chunks in order. Every file has a short link,
and can have a share password.

## Layout

- `src/` is the library: everything that is decided or computed. It is written in Verus, and each
  function is proved to do what its contract says. Effects are left to the caller: a function says
  what to do next, and is told what came of it.
  - `text`, `json`, `reply`, `error`, `manifest`: texts, values, answers, and the manifest format
  - `auth`: passwords, session cookies, and the cookies that unlock shared files
  - `config`, `database`: settings and what is stored
  - `telegram`: calls of the Bot API, retries, and the deletion of files with their chunks
  - `middleware`: who may do what, and the headers of every answer
  - `routes`: what each route answers
  - `outside`: the calls into other crates, whose contracts are taken on trust
- `tests/` runs the library on concrete values.
- `app/` is the program: the HTTP server, SQLite, and the requests to Telegram.

## What is proved beside the contracts

Public proof functions whose names begin with `law_` state what holds of the library as a whole. Among
them: a download gives back what was uploaded, whatever order the chunks were uploaded in; an upload
in chunks that fails takes back every chunk that has an identifier, and its manifest; everything that is
not public takes a session; logging out ends the session; a stored file with a share password is served
by neither of its links without the cookie that the password gets.
