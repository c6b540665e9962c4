# os3_bridge

The verified core of a bridge between a wearable assistant and the Rabbit OS3
service, written in Verus.

- `src/util.rs`, `src/clock.rs`, `src/text.rs`, `src/json.rs`: text, time and JSON.
- `src/cookies.rs`, `src/os3_http.rs`: the cookies and requests of a login.
- `src/os3_auth.rs`: the login, one step for each answer of the service.
- `src/llm/error.rs`: errors made safe to log and fit to speak.
- `src/llm/config.rs`, `src/llm/providers/`: the settings, the choice of a
  backend, and the chat with OS3 as a state machine.
- `app/`: sockets, HTTP and files around the library; not verified.

Each public function states in its `ensures` what it returns. The public proof
functions named `law_..` state what holds of several functions together.
