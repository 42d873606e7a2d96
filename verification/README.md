# crowdfund

A crowdfunding campaign for a smart-contract ledger, with its rules verified in Verus.

Backers contribute tokens, or pledge tokens that move only once the goal is met. After
the deadline a campaign that met its goal pays out, less a platform fee; one that missed
it refunds. Batches (collecting pledges, refunding everybody, cancelling) pass over a
participant whose transfer fails, so that one blocklisted address holds nobody else up.
An admin can put a KYC gate in front of large commitments. Instead of one payout, a
creator can propose a milestone schedule that the contributors vote on: an approved
milestone is released to the creator, less the fee; a rejected one is refunded to the
contributors in proportion to what they put in.

## Layout

- `src/`: the verified library. A campaign's stored state (`Campaign`) and one invocation
  (`Env`) are plain values; every entry point of `CrowdfundContract` is a function on
  them. What the ledger host has to carry out is recorded in the invocation's outbox, who
  must have signed it in `auths`. Answers of other contracts come in as arguments. Numeric
  bounds of a deployment are in `StateLimits`.
  - `types`, `book`, `campaign`, `env`: values and their models.
  - `contribute`, `batch`, `withdraw`, `refund_single_token`, `kyc_gate`, `metadata`,
    `goals`, `crowdfund_initialize_function`, `admin_upgrade_mechanism`,
    `milestone_release`, `queries`, `withdraw_event_emission`: entry points and events.
  - `laws`: what holds of the contract as a whole; `history`: what holds over any sequence
    of calls.
- `app/`: the contract on the ledger. It reads and writes storage, asks tokens and
  verifiers, and carries out the outbox.
- `tests/`: the library on concrete values.

A batch runs in steps, because each transfer's outcome is known only once it was tried:
`begin_...` opens it, `Batch::advance` clears a line and sends out its transfer,
`Batch::reply` takes the outcome, `Batch::finish` closes the books.
