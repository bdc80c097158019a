# vodozemac_ffi

Olm (one-to-one) and Megolm (group) end-to-end encryption sessions built on
[vodozemac](https://github.com/matrix-org/vodozemac), with the JSON string
shapes that JavaScript callers parse. The library is written in Verus: each
public function has a contract, and Verus proves the code against it.

## Layout

- `src/olm_sessions.rs` — `Account`, `Session`, `InboundResult`.
- `src/megolm_sessions.rs` — `GroupSession`, `InboundGroupSession` (Megolm
  version 1).
- `src/json.rs` — the JSON texts: compact objects, key maps in ascending key
  order, and the proof that a map has one such listing.
- `src/text.rs` — the order of `String`s and UTF-8 decoding.
- `src/olm_bindings.rs`, `src/megolm_bindings.rs` — the calls into vodozemac
  and serde_json. Their contracts are taken on trust; each doc comment says
  what is claimed and why the source bears it out.
- `src/error.rs` — `VodozemacError`.
- `app/lib.rs` — the UniFFI layer: each object keeps the library value behind
  a `Mutex` so that methods can take `&self`, and errors are re-exported with
  their messages.

The library's methods take `&mut self` where the state changes; the UniFFI
layer adds the locking.
