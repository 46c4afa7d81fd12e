# media_segments

The rules by which a media server finds the parts of films and episodes that
can be skipped: intros, recaps, previews, credits and outros. The library is
written in Verus: what each function returns or changes is stated in its
contract and proved.

- `src/` is the library. Candidates are judged and ranked in `candidate`,
  detectors read sound and frames in `audio`, `fingerprint`, `visual` and
  `frames`, providers are asked and answered in `lookup`, `responses`,
  `marketplace` and `certification`, jobs move through `jobs`, `runs`, `worker`
  and `analysis`, and settings are kept in `settings`, `library` and
  `preferences`. `discovery`, `catalogues` and `tvdb` search for titles on the
  web, `metrics` lists what is measured, and `network` says how the server is
  announced. `outside` holds every call into another crate.
- `tests/` runs the library on concrete values.
- `app/` is the server around the library: databases, requests, `ffmpeg` and
  the worker loop.

Times are whole microseconds, and ratios and confidences are whole millionths.
The numbers of the outside world are rounded to these in `app/`.
