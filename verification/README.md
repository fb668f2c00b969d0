# win95_desktop

The logic of a Windows 95 style desktop that runs in the browser as a CV and
portfolio site: a window manager and taskbar, a virtual file system with a
file manager, an MS-DOS style terminal, a Markdown viewer, small desktop
applications (Minesweeper, Snake, CD player, calendar, calculator, Paint,
Notepad, System Properties), the log-in screen, and the request handling of
the development server.

- `src/` is the library, verified with Verus: every operation states what it
  does over a mathematical model of its state, and `lemma_*` proof functions
  state the laws that hold across operations (closing a window undoes
  opening it, the first Minesweeper click is never a mine, arrow down undoes
  arrow up in the terminal history, and so on).
- `tests/` runs the library on concrete values.
- `app/` is the program around it: the development server's `main`, and the
  browser front end (DOM, events, timers, fetches, floating-point drawing and
  arithmetic) that drives the library.
