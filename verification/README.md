# viewview

The verified core of the viewview viewshed service, written in Verus.

- `src/grid.rs`: DEM IDs and raster coordinates of the square DEM grid, the integer square
  root, and the neighbourhood of a DEM ID, with the laws that relate them.
- `src/payload.rs`: the big-endian binary payload of a viewshed response, built row by row,
  with its encoding as a specification and the proof that it decodes back.
- `src/coordinate.rs`: the `lon,lat` text of a coordinate, split into trimmed fields.
- `src/shards.rs`: which files of the database directory are shards.
- `src/projection.rs`: the descriptions of the lon/lat and AEQD projections.
- `src/jobs.rs`: the ordered steps (commands, S3 transfers, removals) of the tile and stitch
  jobs.
- `app/`: the HTTP server (axum, sqlx, tokio) and the floating-point projections (proj4rs,
  geo), which call into the library.
