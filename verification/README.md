# helios_rot

Attestation by the root of trust (RoT) of a Helios host: the requests to the `os_rot` driver
and what its replies mean, the certificate chain that the driver returns, nonces and
attestations, and a mock that attests with a key from a file.

- `src/` is the verified library. It performs no I/O: a request is a value to hand to the
  driver, a reply is a value to hand back. Calls into `getrandom`, `p384` and `x509-cert` are
  made through trusted items, each of which says in its doc comment what is believed of it.
- `tests/` runs the library with the real crates.
- `app/` opens the device, issues the ioctls, reads the files of the mock, and offers both
  behind an async trait.
