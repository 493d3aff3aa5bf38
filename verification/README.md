# caltui

A terminal calendar that shows Google Calendar and Microsoft/Outlook events in
one day timeline, opens Teams and Google Meet links, and sends desktop
notifications before meetings start.

## Layout

- `src/` is the library, written in Verus: its functions carry contracts and
  are proved against them, except the small trusted wrappers around outside
  calls, whose contracts are assumed. It holds the calendar model and its ordering and
  overlap layout, the ICS and Google Calendar readers, the OAuth helpers, the
  settings, timeline, detail and help screens as state machines from key to
  next state and effect, the notification schedule, and the laws that tie
  these together (round trips of the percent and decimal codecs and of the
  settings form, reminders never repeated for an event, day navigation, the timeline's
  column and clipping geometry).
- Calls into chrono, chrono-tz, icalendar, dirs, sha2 and getrandom stand behind small trusted
  wrappers whose doc comments say what is assumed of them.
- `app/` is the program around the library: the terminal loop and drawing
  (ratatui, tui-textarea), HTTP and the OAuth listener (reqwest, tokio), the config file
  (serde, toml), notifications (notify-rust) and opening links (open).
- `tests/` exercises the library on concrete values.
