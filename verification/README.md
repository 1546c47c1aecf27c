# storage

A file storage service: a Rocket server that stores uploads in MongoDB
GridFS buckets and serves them back, with partial downloads through the
`Range` header, plus a Redis-backed queue of archive jobs and its worker.

`src/` is the verified library (Verus):

- `common`: reading the `range`, `content-type` and `x-file-name` headers
  (`Range`, `FileMeta`), the error enums and the archive job.
- `services`: the upload session that hashes what it stores, the MD5 hash
  text, media types by extension, object ids, duplicate detection, and the
  chunk plans for skipping and streaming a stored file.
- `routes`: the statuses and bodies the storage and task routes answer with.

`app/` runs the servers and the worker: HTTP, database, queue and stream
work, calling into the library for every decision.
