# solyn

The verified core of Solyn, a desktop assistant that browses GGUF models on the
Hugging Face hub, downloads them, registers them with a local Ollama server and
chats with them.

- `src/` is the library, written and proved with Verus: the hub listings and their
  cache, model-file naming, download planning and resumption, the installed-model
  folders, the installer and updater decisions, the chat context and its token
  budget, the decoding of streamed replies, and the platform descriptions.
- `app/` is the input and output around it: HTTP requests, processes, files, the
  SQLite chat history and the system probes. It asks the library for the decisions
  the library holds; what rests on floating-point values (progress percentages,
  a session's explicit temperature and top-p) and on the operating system's own
  calls stays here.
- `tests/` exercises the library on concrete values.
