# schist_workspace

The state and the decisions of the Schist editor's workspace, written in
Verus: each public function carries a contract over a mathematical model
of the state, and Verus proves the code against it.

## Layout

- `src/` is the verified library.
  - `workspace.rs`, `modal.rs`: the workspace and its dialogs.
  - `fields.rs`, `line_edit.rs`, `field_keys.rs`, `field_commit.rs`, `keys.rs`: dialog
    fields (caret and selection as UTF-8 byte offsets), what keys, typing and
    committing a field do, and which keys reach the canvas.
  - `recipes.rs`, `export_report.rs`, `workflows.rs`: export recipes and
    recorded actions.
  - `canvas.rs`, `raster.rs`, `mask_refine.rs`, `filter_stack.rs`: canvas
    turns and flips, with the laws that undo them, and the editing panels.
  - `viewport_queue.rs`: the GPU viewport queue, one render in flight and
    failed renders not retried.
  - `assets.rs`, `culling.rs`, `search.rs`, `submit.rs`, `cloud_view.rs`,
    `cloud_sync.rs`, `session.rs`, `gallery_review.rs`, `similar.rs`,
    `thumbnail_queue.rs`, `download_names.rs`: the cloud gallery, its
    paging, search filters, culling, review of similar photos and the jobs
    it hands out.
  - `documents.rs`, `doc_sync.rs`: cloud documents, detaching, reopening
    and the updates they take.
  - `metadata.rs`: the metadata forms and the batch change they write.
  - `cloud_paths.rs`, `clipboard.rs`, `import_target.rs`: names and paths
    the cloud side writes, links pasted from the clipboard, and where a
    camera import uploads to.
  - `text.rs`, `numbers.rs`: text and number parsing the rest builds on.
- `tests/` runs the library on concrete values.
- `app/` holds what the library leaves to its caller: reading files and the
  network, the wire formats, and the calls into crates the library does
  not model.

Calls into outside crates (`url`, `sha2`) and the clock go through a few
trusted wrappers whose contracts say what those crates document; every
other function is proved.
