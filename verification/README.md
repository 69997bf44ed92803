# metadata_function

An edge function that serves metadata for cloud-native geospatial workflows and looks into
FlatGeobuf files by range requests. What it decides is verified with Verus.

| Path | Reply |
|---|---|
| `/` | what the service is |
| `/healthz` | health check |
| `/metadata`, `/tilejson`, `/capabilities` | documents that the component carries |
| `/env` | selected runtime environment |
| `/remote-metadata`, `/remote-tilejson` | documents fetched from fixed addresses |
| `/fgb-head`, `/fgb-head-esa` | preamble of a FlatGeobuf file |
| `/fgb-parse`, `/fgb-parse-esa` | summary of the header of a FlatGeobuf file |

## Layout

* `src/session.rs`: routing, and the sessions that requests open; they ask for work by actions
  and go on with events.
* `src/uri.rs`: the path that a request is routed by.
* `src/fgb.rs`: preambles and headers of FlatGeobuf files.
* `src/flatbuf.rs`: a minimal reader of FlatBuffers tables.
* `src/reply.rs`, `src/bodies.rs`: replies and their JSON.
* `src/text.rs`, `src/numbers.rs`: the text that the JSON is made of.
* `src/search.rs`: finding characters and patterns in text.
* `src/laws.rs`: what holds of the service as a whole.
* `app/`: the Spin component that performs the actions; `app/component.rs` is what a Wasm build
  exports.

## Building the component

A Wasm build bundles `data/metadata.json`, `data/tilejson.json` and `data/capabilities.json`, byte
for byte; it fails where one of them is missing.
