# fujimura_silence

The verified core of an agent-based model of Fujimura & Hino (2019),
"Silence and voice in the organization": psychological safety → fear →
acquiescence → silence, and fear → (suppressed) voice.

- `src/` — the library, verified with Verus: the decision-mode / prompt-variant /
  locale vocabulary and its command-line parsers, the silence motives and the
  summary expression of a step, the placement of employees into teams and
  levels, the prompt wording, the lenient reading of the model's JSON reply,
  the per-step counts behind the reported rates, and list-valued arguments.
- `tests/` — tests of the library.
- `app/` — the simulation around it: the real-valued latent-state mechanisms,
  world initialisation, the socsim engine wiring, the language-model client,
  CSV/JSON output and the command-line program.
