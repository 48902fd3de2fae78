# emiko

A shell assistant: it asks a language model (through Ollama or an
OpenAI-style service) for a command, shows it, runs it, and remembers the
interaction.

- `src/` is the verified library: the text sent to the model (`prompt`),
  taking the command out of the answer and judging its outcome (`command`),
  the confirmation and spinner text (`terminal`), the provider choice
  (`config`), file locations (`paths`), memory and log lines (`records`),
  documents and their chunking (`rag`, `chunking`), and string helpers
  (`text`).
- `app/` is the program around it: options, files, the terminal, HTTP,
  the shell and the clipboard.
- `tests/` exercises the library on concrete values.
