# shiftbot

A Twitch chat bot's moderation and mini-game logic, verified with Verus.

- `src/` is the verified library. Each module is a state machine that takes a chat
  message (or a clock tick) and answers with the actions the bot takes:
  - `modules::moderation`: the spam filters (`noflood`, `asciiart`, `misc`),
    escalating timeouts by ban level, hourly decay of ban levels, the
    `$moderation on/off` switch and the reports sent to the moderators' hook;
  - `modules::thanos`: the `$snap` mini-game;
  - `modules::chat`, `modules::shiftah`: the chat logger and the easter egg;
  - `table`, `text`, `chance`: a name table, character helpers, random draws;
  - `laws`: properties proved of the modules as a whole.
- `app/` is the bot itself: the Twitch connection, the clock, the report hook, the
  pacing of the snap's timeouts and the anti-bot counter (a float).
- `tests/` runs the library on concrete messages.
