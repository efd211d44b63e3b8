# archpkg

The program logic of FUIDE Arch-Update, a package manager for Arch Linux (pacman + AUR helper) with
a tray applet that watches for updates, written and verified in Verus.

- `src/` is the library. Everything that decides or computes stands here, each function with a
  contract: which queries are run and what their output means (`pacman`), the file the window and
  the tray share (`state`), the console and its transitions (`app`, `backend`), what the panels show
  (`panels`), the order of the listing (`order`), the applet (`tray`), one window per session
  (`instance`), the desktop entries (`setup`), commands in a pseudo-terminal (`pty`, `term`,
  `prompt`). `laws` states what holds of the console as a whole; the laws of the other modules stand
  at their ends.
- `app/` is the program around it: the window (egui), the applet (ksni), the processes, files and
  sockets, and the arithmetic on sizes, which is floating point. Started as
  `fuide-arch-update-tray` it is the applet, else the window.
- `tests/` runs the library on concrete values.

Sizes, times and frame rates come into the library as the texts that are shown; for the order of the
listing a size has a rank. What std and chrono do is taken on trust where the doc comments say so:
the case mappings and the quoted form of a text are named, not described; of the hash of a path it
is said which path it was made of; and nothing is promised of the clock or the time zone.
