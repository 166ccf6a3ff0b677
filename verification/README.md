# prophesy

The logic of the Prophesy battery monitor as a verified library, with the
GTK application around it.

- `src/` (verified with Verus):
  - `text`: splitting bytes, reading and writing decimal integers, comparing text.
  - `charge`: charge states of history entries and battery states.
  - `history`: power-daemon history files, the history keyed by timestamp, and
    the comma-separated export.
  - `report`: the recent-usage entries of an XML battery report, read through
    `roxmltree`, and the arguments of the command that writes the report.
  - `tabs`: navigation tabs and what a click on a navigation button does.
  - `dashboard`: what a refresh shows for a battery state, the battery
    information kept, and the battery summary labels.
  - `graph`: what the history graph draws for a size and a day range.
  - `prediction`: the schedule of battery predictions.
- `app/`: the GTK widgets, battery and file reading, the prediction requests,
  and the floating-point work.
- `tests/`: tests of the library.
