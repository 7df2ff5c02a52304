# apr

An interactive terminal program that removes packages on Arch Linux and other
distributions that use pacman: it lists what is installed, lets packages be
searched, filtered, sorted and marked, makes a dry run of their removal, asks for
a confirmation, and removes them.

The decisions of the program are in a library that is verified with
[Verus](https://github.com/verus-lang/verus).

| Module        | What it holds                                                       |
|---------------|---------------------------------------------------------------------|
| `package`     | packages, and how the list of the installed ones is built           |
| `listing`     | which packages are listed, and in which order                       |
| `order`       | a sort by any total order                                           |
| `mode`        | removal modes and sort modes                                        |
| `model`       | the state as a mathematical value, and what keys and messages do    |
| `app`         | the state, and the functions that follow keys and messages          |
| `transaction` | the steps of a dry run and of a removal                             |
| `rounding`    | sizes and percentages                                               |
| `text`        | strings: trimming, splitting, cutting, padding, setting into lines  |
| `layout`      | areas of the screen                                                 |
| `style`, `widget` | what a drawing is made of                                       |
| `bars`, `table`, `details`, `dialogs`, `screen` | what is shown                     |
| `laws`, `safety`, `runs`, `typesetting` | what holds of the library as a whole      |

The program itself is in `app/`: it reads the package database through libalpm,
runs transactions on threads of their own, reads keys and draws on the terminal.
It needs root privileges.

## Safety

- Nothing is removed before a dry run has found out what would go, and before
  `yes` has been typed in the dialog that shows it
  (`safety::every_removal_follows_its_dry_run`).
- A dry run never removes anything (`runs::a_dry_run_removes_nothing`).
- That dialog names every package that would go
  (`safety::the_confirmation_names_every_package`).
- A package that the system needs is warned of in that dialog
  (`safety::the_confirmation_shows_the_warnings`).
