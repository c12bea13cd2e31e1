# holium_utils

Utilities of the Holium command line interface, verified with Verus: the structural reader and
writer of Holium CBOR data, selectors, porters between JSON, CBOR or binary files and Holium CBOR,
JSON schemata of pipeline nodes, interplanetary block kinds and CIDs, pipeline graphs, and the
naming rules of the local and repository areas.

- `src/` is the verified library. Calls into outside crates (sk-cbor, serde_json, base64, cid,
  blake3, petgraph, mime_guess, path-clean, ellipse, humansize) stand behind small trusted
  wrappers whose contracts name what the outside function computes.
- `tests/` exercises the library with the real outside crates linked.
- `app/` holds the input and output around the library: files, the process environment, the
  sled stores and the terminal.
