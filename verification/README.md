# stoat_components

The logic of a desktop client for the Stoat chat service, as a verified
library: every function in `src/` carries a contract that Verus proves.

- `markdown`: the inline grammar of mentions, emoji, links and spoilers
  (`inline`), the blocks built from a CommonMark event stream (`blocks`),
  and how the viewer lays the blocks out (`view`).
- `compose`: the replies and attachments prepared for the next message,
  the autocomplete trigger, typing notices, emoji insertion.
- `textbox`: what a key press in the message box does, including the
  `s/pattern/replacement/` edit command.
- `autocomplete`: what the popup offers, in what order, and how its
  selection moves.
- `login`: the sign-in form and its two-factor prompt.
- `home`: the page the home screen shows and which navigation button is
  highlighted.
- `timestamp`, `listing`, `cards`, `menus`, `messages`, `emoji`, `gif`,
  `search`, `voice`, `links`, `model`: labels, lists, menus and the data
  they are computed from.

`app/` holds what touches the machine: the clock, the local time zone,
files, and pixel sizes.
