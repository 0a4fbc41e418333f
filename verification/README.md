# snapshelf

The verified core of a Windows staging shelf: a panel that slides in at the right
screen edge to hold dropped files, links and text.

- `src/` (Verus): when the shelf opens and closes (`shelf`), where its window goes
  (`geometry`), the persisted open mode (`settings`), dropped-path classification and
  thumbnail names (`assets`), UTF-16 clipboard buffers and pasting (`clipboard`),
  item-list requests (`commands`), and text helpers (`text`).
- `app/`: the program around it: window toolkit, tray, Win32 calls, file and image I/O,
  and the cursor-polling thread, each handing plain values to the library.
- `tests/`: behaviour tests of the library.
