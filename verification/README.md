# educhain

Verified core of the EduChain certification system on MultiversX.

- `src/` — the library, verified with Verus:
  - `nft` — soulbound certificate NFTs: issuers, one certificate per student and
    course, batch issuance with roll-back, soft revocation, status checks;
  - `certificate` and `codec` — the on-chain encoding of certificate attributes, with
    proofs that decoding gives back what was encoded and that nothing else decodes;
  - `token` — the $ECT reward treasury (mint, allocate, claim, pay), with the amount
    the contract accounts for kept exact across every operation;
  - `escrow` — mentoring-session escrow (create, confirm, dispute, resolve, expire with
    a refund to the student),
    with the locked total kept exact across every operation;
  - `anchor` — the content-hash registry (write-once anchors, soft revocation,
    per-author paging);
  - `config`, `interact`, `hashing` — what the command-line client decides: key
    source, fixture preparation, content hashes (over canonical JSON-LD), labels.
  Contract endpoints take the caller, block time and attached payments as arguments
  and return the transfers or requests the contract would send, and the events it
  logs.
- `tests/` — scenario and unit tests of the library.
- `app/` — the command-line client: argument parsing, files, wallet and network calls.
