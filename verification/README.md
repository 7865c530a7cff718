# xboard_client

The verified core of an Xboard panel client that runs the mihomo (and, on
iOS, sing-box) proxy kernel.

`src/` is checked by Verus:

- `yaml`, `json`, `text` — document trees owned by the library with their
  mathematical views, and the string operations the rest is built from.
- `inject`, `inject_laws` — patching a mihomo subscription for our
  controller, secret, ports, TUN mode, DNS and default rules, and the laws
  every patched document obeys.
- `singbox`, `singbox_laws` — translating a subscription into a sing-box
  config, and its laws (no dangling outbound references, supported
  protocols, inbounds by mode).
- `connect` — the connect / disconnect flow as a state machine from
  (state, event) to (state, states to publish, action).
- `kernel`, `driver` — group ordering, the session secret, controller URLs
  and answers.
- `api`, `ffi`, `desktop`, `svc` — the panel's answer shapes, the binding
  records, the desktop shell's decisions, and the Windows service's path
  policy.

`app/` holds the I/O around it (HTTP, processes, files, the serde shapes of
the panel's JSON) and is ordinary Rust. `tests/` exercises the library.
