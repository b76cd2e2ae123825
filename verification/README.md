# prossimo

A proxy rotator for Linux. The library (`src/`, verified with Verus) holds
the logic: reading proxy list files into proxies, handing proxies out in
turn, letting command line parameters override the configuration, and the
decisions of proxy validation. The program around it (`app/`) loads the
YAML configuration, parses the command line, talks to the network and
prints.

- `src/text.rs`: line splitting as `str::lines`, Unicode white space and trimming, substring search,
  decimal rendering, joining.
- `src/config.rs`: the configuration, its setters and the override rules.
- `src/error.rs`: the error type.
- `src/proxy/types.rs`: proxies, their URL form and parsing.
- `src/proxy/manager.rs`: the proxy manager, round robin and rotation after
  every `rotate_every_requests` requests, with their laws.
- `src/proxy/validator.rs`: validation decisions and tally.
