# wordweave_ui

The decisions behind the WordWeave desktop application for Japanese
learners of English, verified with Verus: when notices interrupt the user,
how a study session's clock runs and is credited, which task comes next,
what a batch of material generation queues, how an edited settings draft
merges with changes made elsewhere, how imported material replaces existing
items, when attachments are admitted and how they are previewed or shown,
how the chat composer treats Enter during input-method conversion, and how
quoted evidence is highlighted in a transcript.

- `src/` is the verified library. Each module states its rules as `requires`
  / `ensures` over spec functions, and the public `lemma_*` proof functions
  state properties that span several calls.
- `tests/` exercises the library on concrete values.
- `app/` is the thin shell that reads files, the clock and egui input, and
  calls the library.
