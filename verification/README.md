# Robinhood Chain LP screener

Screens newly created Uniswap V3 pools, alerts on Telegram, adds liquidity to a pool
on a tap, and looks after open positions until they are closed and their proceeds are
swapped into USDG.

- `src/` is the verified library: screening, pricing, metrics, liquidity, the swap
  route of a closed position, what is remembered between runs, and everything that the
  bot says. Floating-point numbers are held by their bit patterns, and their arithmetic
  is proved to round as IEEE 754 asks (`rounding`, `double`, `order`, `fixed`) and to keep the
  order of its arguments (`monotone`).
- `app/` is the program around it: the RPC client, the HTTP services, the state file and
  the Telegram dispatcher.
- `tests/` runs the library.

`Cargo.toml` names `takecell`, which only `teloxide` uses, in order to hold it at 0.1.1:
0.1.2 needs a newer compiler than the rest of the crates.

The properties that span functions are the public proof functions whose names begin with
`law_`.
