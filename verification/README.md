# Rawskap Transfer

The core of a desktop client that moves large files to and from the Rawskap media library:
a queue with resumption, folder synchronisation, search, shared collections, and posters and
playback versions of clips by way of ffmpeg.

The library under `src/` is written in Verus. It holds what the client decides about files,
transfers and answers, as functions and state machines with proved contracts; it touches
neither the disk nor the network. The application under `app/` performs what the library
decides and hands back what came of it. What belongs to the window and to running tasks is
decided there: what closing the window does, and which tasks are stopped when the folders
to look through are set anew. Identifiers are Norwegian, as are the words that the user sees.

| module | what it decides |
| --- | --- |
| `tekst` | text: comparing, splitting, trimming, numbers |
| `kalender` | time stamps |
| `navn` | safe file names and paths, names beside a file that is there |
| `media` | kinds of files, what ffmpeg says, what ffmpeg is told |
| `hash` | checksums |
| `struping` | the shared settings and the bandwidth ceiling |
| `framdrift` | reports and the log |
| `json` | answers and request bodies |
| `portal` | addresses, the key, what the portal's answers mean |
| `nedlasting` | the course of a download |
| `multipart` | the course of an upload in parts, and its resumption |
| `opplasting` | the course of an upload |
| `proxy` | making and storing a version for playback |
| `mapper` | folders in the library, each made once |
| `lokalt` | which local files count, the walk to them, and their order |
| `synk` | folder synchronisation |
| `jobb` | the files of a job: turns, tries, the log of each, the result |
| `skall` | the tray, the file browser, tidying up |

What a module promises as a whole stands in it as a public proof function, such as
`nedlasting::navn_bare_til_hel_fil` or `synk::sendt_fil_sendes_ikke_igjen`.

The window itself needs Tauri and its plugins, which `app/vindu.rs` names; the rest of the
application knows the window only through the trait in `app/vert.rs`.
