# tbg-lite

Taskbar grouping control for Windows, without code in other processes: the taskbar
groups windows by their AppUserModelID (AUMID), and this program rewrites that id.

There are two ways to use it. *Ungroup* appends a marker that is unique to each
window, so that every window gets a button of its own. *Group* gives all windows one
shared id. Both can be undone: the marker is stripped again, and what a shared id
replaced is kept in a small file until it is put back.

## Layout

- `src/` is the library: every rule of the program, as verified functions from plain
  values to plain values. The flows that alternate with the system (the watcher's
  session, the watcher itself, restoring, the menu) are state machines that name the
  next thing to do and take what came of it.
- `app/` is the program around it: arguments, files, the registry, COM, hooks and
  threads. It does what the library asks for and decides nothing.
- `tests/` runs the library on concrete values.

| module | what it holds |
| --- | --- |
| `appid` | the ids: the marker of one window, the shared id of a group |
| `winevent`, `watchlog` | what the watcher does with a window, and what it says |
| `session`, `pump` | the life of a watcher, its timers and the shell's restarts |
| `restore`, `restoremap` | undoing, and the file that remembers |
| `health`, `ringlog` | the circuit breaker and the bounded log |
| `autostart`, `shortcut`, `singleinstance` | the Run value, taskbar tiles, the mutex |
| `cli`, `inspect`, `menu`, `l10n` | arguments and output, in two languages |
| `winutil`, `num`, `text`, `utf16` | windows as plain facts, numbers and text |
