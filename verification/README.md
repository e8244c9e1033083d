# llm_proxy_app

The logic of the llm-proxy tray application, verified with Verus.

- `src/` — the library: the proxy's port and URLs (`api`), the JSON model
  of the admin API's answers (`json`, `model`), the tray menu (`menu`), menu
  events and model switches (`events`), the tray state and the plans of
  outside work (`state`), the proxy binary's name (`process`), and text
  helpers (`text`).
- `tests/` — tests of the library on concrete values.
- `app/` — the Tauri application around it: environment, HTTP, the proxy
  process, threads and the tray; it performs what the library plans.
