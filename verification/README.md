# qdrant-vector

A multimodal question search service (text, picture, or both) over Qdrant,
with BGE-small-zh text vectors and Chinese-CLIP picture vectors.

- `src/` is the verified library (Verus): request checks, HTML to text for
  the text model, the payload stored with each question and how a search hit
  is read back, the filters and the fused (RRF) query, the steps that make
  sure the collection exists, and the configuration.
  `src/laws.rs` holds the properties that relate several operations.
- `app/` is the HTTP service around it (axum, the embedding models, the Qdrant
  client, environment variables). Floats, I/O and the model calls live there.
- `tests/` runs the library on concrete inputs.

Search semantics: the searches are fused by weighted reciprocal-rank fusion.
The request's stem / analysis / knowledge weights (0.6, 0.25, 0.15 by
default) are scaled to average 1.0, and a picture search weighs 1.0: 1.0 is
the weight of every search in unweighted fusion, so equal weights give plain
reciprocal-rank fusion over all the searches, and the fused score stays in
its range of about 0 to 2. The filters apply to every one of the searches and
to the fused result. On start the collection is kept only
when its named vectors are exactly `stem`, `analysis`, `knowledge` (text size)
and `image` (picture size), all by cosine distance; otherwise it is rebuilt.

Dependencies: `ort-sys` is named only to hold it at the release that matches
`ort` (a newer `ort-sys` does not build with it); ONNX Runtime is loaded
dynamically at run time.
