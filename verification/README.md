# requers

An HTTP client with a requests-like API: GET requests, file downloads that can be
followed, cancelled, aborted and resumed, and SHA-256 hashing of files and bytes.

## Layout

- `src/` is the library, verified with Verus. It decides; it does no input or output.
  - `request`: the URL with its query, the proxy, redirects, headers and basic
    authentication of a GET request
  - `response`: the response, and which statuses are bad
  - `download`, `handle`: a download as a state machine, and the handle that shows its
    progress and takes requests to stop it
  - `download_laws`: what holds of a download as a whole, with the files on disk
  - `headers`, `dict`, `items`: response headers, ordered dictionaries, and dictionaries
    that need not hold texts
  - `hash`, `encode`, `text`: digests, encodings and decimal numbers
  - `failure`: the messages for failures
- `app/` is the Python module around it: it talks to the network, the disk and Python.
- `tests/` runs the library with the outside crates that it calls.

## What is trusted

The contracts of the functions marked `external_body`, which call `base64`, `hex`,
`sha2`, `url` and `ureq`, and that of `String::push`. Each says in its comment what it
claims of the outside function.
