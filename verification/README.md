# HousemanFS

A read-only filesystem index that accounts for every byte on a volume: hardlinks counted
once, shared extents never reported as reclaimable, sparse and compressed files measured on
allocated size, and an explicit residual for whatever could not be explained.

## Layout

- `src/` — the verified library.
  - `accounting` — volume accounting: used, attributed, residual, and the reconciliation
    finding.
  - `bytes` — per-file extent sizes and ownership; what deleting a file would free.
  - `identity` — volume and file identity, keyed on IDs rather than paths.
  - `volume` — volume facts and the volume's stable identifier.
  - `ntfs` — NTFS metadata figures, device paths and system-file paths.
  - `walk` — the state and decisions of the directory walk, including hardlink grouping.
  - `scan` — whole-volume decisions: volume roots and the accounting a scan adds up to.
  - `text` — UTF-16 conversion for the wide-character Windows API, and hex rendering.
- `app/` — the command-line program and the Windows calls (`windows-sys`): volume queries,
  directory listing, per-file queries, privilege detection, and report rendering.
- `tests/` — tests of the library.
