# pair_monitor

Watches the Uniswap V2 factory for new pairs that pool at least one ether of
WETH, screens them with honeypot.is, and announces them on a Discord webhook.

- `src/` is the verified library (Verus):
  - `prettify.rs`: shortening of decimal texts and grouping of digits by thousands;
  - `address.rs`: addresses as 20 bytes, read from log topics, written and parsed as text;
  - `pair.rs`: decoding of `PairCreated` logs and the choice of the WETH side of a pair;
  - `webhook.rs`: the API replies, the honeypot screening, the embed, and the
    steps of sending one notification;
  - `text.rs`: what the library relies on from `std` for building strings.
- `app/` is the program around it: the block subscription, the contract calls,
  the HTTP requests, the JSON conversions and the floating-point price.
- `tests/` runs the library on concrete values.
