# axdriver_aic8800

A driver library for AIC8800-family Wi-Fi/Bluetooth chips on SDIO, written in Verus:
every function of the library states its behaviour in `requires`/`ensures` and is
proved against it.

## Layout

- `src/` — the verified library.
  - `bytes` — byte-string helpers and the little/big-endian encodings they use.
  - `device`, `sdio`, `protocol`, `response`, `transaction` — products and register
    maps, the bus access traits with their bus log, command flow control, command
    framing and padding, receive servicing and the command/response round trip.
  - `firmware`, `debug`, `d80`, `patch_table` — the debug task messages, firmware
    upload, the D80 Wi-Fi and Bluetooth boot sequences and the Bluetooth patch table.
  - `management`, `runtime`, `me`, `rf`, `scan`, `association`, `key`, `tx`, `data` —
    the firmware's management, MAC-entity, RF, scan, association and key messages, and
    the data path.
  - `credentials`, `rsn`, `eapol`, `wpa_crypto` — the credential frame, RSN elements,
    the WPA2-PSK/CCMP four-way handshake frames and the key derivations. HMAC-SHA1,
    PBKDF2, AES-128 and zeroization come from the RustCrypto and `zeroize` crates through
    a few trusted wrappers in `wpa_crypto`, each documented with what it claims.
- `tests/` — tests run against the compiled library.
- `app/` — the raw bus accesses implemented over the SG2002 SDIO host controller
  driver.

The bus access traits carry a specification-only log of bus operations, and the
contracts of the driver functions are stated over that log. Every implementation of the
traits is bound to keep that model: each access method appends exactly the operation it
performed, with its answer. `logged_bus::LoggedBus` is such an implementation, verified:
it wraps an adapter that performs only raw accesses (`AicRawBus`, with nothing stated of
its answers) and records each access as it passes through. The SG2002 adapter in `app/`
is used that way.
