# gaia

Gaia manages LLM serving for Hugging Face models: it detects the machine,
recommends models that fit, launches an inference backend (vLLM, TGI,
SGLang, llama.cpp, Ollama) in Docker or a mock OpenAI-compatible API,
and generates Docker Compose, Kubernetes and systemd files.

## Layout

- `src/` — the library, written in Verus and verified: configuration
  rules, backends and their Docker commands, the model catalog and the
  recommendation ranking, the interactive selector's state machine and
  the text of its panels, the mock API's routing and replies, catalog refresh rules, and the
  generated deployment files. Each public function states its result in
  `requires`/`ensures`; the properties that span functions are public
  proof functions (`lemma_*`).
- `app/` — the `gaia` command around the library: argument parsing,
  files, processes, HTTP, the terminal UI's drawing.
- `tests/` — tests of the library on concrete values.

The catalog is read at run time from `catalog/models.yaml` (or the path
in `GAIA_CATALOG`); the chatbot template from `templates/chatbot-react`
(or `GAIA_TEMPLATES`).
