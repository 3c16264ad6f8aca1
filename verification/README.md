# nuwax_upload

Uploads files and directories to MinIO (S3-compatible) storage.

- `src/` is the verified library: the clock reading and its timestamp
  (`clock`), resolving the command-line arguments and
  what was found on disk into the list of files to upload (`config`), the
  path operations that needs (`paths`), content type detection
  (`content_type`), the upload plan and client setup (`upload`), progress
  labels, totals and download URLs (`report`), and properties that relate
  them (`laws`).
- `app/` is the program around it: argument parsing, looking at the disk,
  progress bars, logging and the concurrent uploads themselves.
- `tests/` exercises the library on concrete values.

When no prefix is given and the system clock cannot be read as a UTC time
(before 1970, or beyond what chrono represents), resolving ends with a
clock error instead of a made-up prefix.

When no timeout is configured, the bucket handle is set to have no request
timeout (`set_request_timeout(None)`). rust-s3's tokio client still keeps
the 60-second connect timeout it was built with by `Bucket::new`, since no
rust-s3 call rebuilds the client without one.
