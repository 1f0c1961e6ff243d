# github-ntfy-agent

Self-hosted GitHub notification forwarder for `ntfy`, with its decision
logic verified by Verus.

- `src/` is the verified library: timeline summaries, notification
  rendering, block rules, auto-watch selection, the remembered state
  (seen keys and merged notification blocks), configuration checks, and
  the decisions of the polling loop. Every public function states its
  result in `ensures`; the laws that tie functions together are public
  proof functions (`law_*`).
- `app/` is the program around it: the command line, configuration and
  state files, the GitHub REST/GraphQL and ntfy requests, the action
  callback server and the polling loop.
- `tests/` runs the library on concrete values.
