# auto_switch

When the quota of the account in use runs out, switch to another account.

The library in `src/` decides; the shell in `app/` asks and acts. One check is a
machine: `step::begin` gives the first action, and `step::step` takes the answer to
an action and gives the next one, until the check fails or finishes.

- `account`: accounts and what is left of their quotas, under both billing systems.
- `rounding`: double-precision rounding on integers, for the share of credits used.
- `selection`: which accounts may be switched to, and which one is taken.
- `identity`: finding the signed-in account by its address.
- `flow`, `step`: the stages of a check, and what follows on each answer.
- `report`, `text`: outcomes, log entries and their wording.
- `reply`: reading JSON replies.
- `outside`: what is taken from `std`, `uuid` and `serde_json` without proof.
- `laws`, `runs`: what holds of quotas and choices, and of a check as a whole.

`app/` runs a check on a `Host`: the store of accounts, the quota service and the
switch itself.
