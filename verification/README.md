# lumina

The verified core of the Lumina media server, written in Verus.

`src/` holds the server's rules with their contracts, proved by Verus:

- `config`: defaults, accessors and environment overrides of the configuration.
- `text`, `num`, `path`, `sort`, `digest`: character sequences (splitting,
  trimming, code point order), decimal integers as `str::parse` reads and
  `Display` writes them, Unix path joining and components, a stable sort by
  key, and MD5 digests in hexadecimal.
- `modules::files`: where a request path leads and when it is refused,
  directory listings (hidden entries left out, directories first, then by
  lowercase name), trash and thumbnail locations.
- `modules::library`: the scan state machine, what a scan records of each
  file and of a media probe, paging through movies.
- `modules::stream`: `Range` requests and the reply they get.
- `modules::download`: aria2 statuses, task routing, the polling plan,
  resumed HTTP downloads, `Content-Disposition` names, fallback trackers.
- `middleware::auth`, `db`, `modules::system`: bearer tokens, migration
  order, stored settings.

`app/` is the server around it: HTTP routes (axum), the database (sqlx),
the file system, external tools (ffprobe, ffmpeg, aria2) and BitTorrent.
