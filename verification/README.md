# rustshot

A Windows tray screenshot tool: region selection with an annotation editor,
full-screen autosave, clipboard copy, printing and a native settings dialog.

- `src/` is the verified library. Each module states its behaviour as Verus
  contracts over spec functions and proves it: settings and their
  validation, shortcut recording, frame geometry and cropping, monitor
  compositing, clipboard and print pixel layouts, image encoding options,
  the editor's key, toolbar and selection decisions, its undo/redo history,
  pixel drawing and effects, atomic file publication, autosave naming,
  settings commits with rollback, and the diagnostic report.
- `app/` is the Windows program around it: the event loop, windows,
  dialogs, threads, file and clipboard I/O, and the floating-point vector
  annotation geometry and text rendering.
- `tests/` exercises the library on concrete values.
