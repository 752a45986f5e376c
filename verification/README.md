# ecpay

The core of an ECPay payment connector, verified with Verus: it builds and
signs the requests for authorization, capture, cancellation, refund and state
queries, and reads the service's answers.

- `src/` is the verified library. `check_mac.rs` states what the check value of
  a request is; `params.rs` and `encoding.rs` state and prove what it rests on.
- `tests/` runs the library on concrete values.
- `app/` is ordinary Rust around the library: masked credentials, error reports,
  serialized messages and forms.
