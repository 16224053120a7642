# yonder

Gestor de túneles SSH para el escritorio. Cada túnel es un reenvío (`-L`,
`-R`, `-D`) sobre una conexión maestra de OpenSSH con socket de control; la
configuración vive en `~/.ssh/config.d/yonder.conf`, que `ssh` lee gracias a
una línea `Include` en `~/.ssh/config`.

## Organización

- `src/`: la biblioteca, verificada con Verus. Aquí están el modelo (hosts,
  reenvíos, extremos, sondas de salud), el analizador y el escritor del
  fichero de configuración de `ssh` con sus leyes de ida y vuelta, la máquina
  de estados de los túneles y las decisiones del supervisor, la lectura de
  `/proc/net/tcp`, la construcción y la interpretación de las órdenes `ssh`,
  `ssh-keyscan`, `ssh-keygen` y `ssh-copy-id`, las rutas XDG y los estados de
  la interfaz que no dependen del dibujado.
- `app/`: la consola. Lee argumentos, disco, entorno y procesos, lanza `ssh`
  y guarda en SQLite lo que el usuario quiere de cada túnel; todo lo que
  decide lo pregunta a la biblioteca.
- `tests/`: pruebas de la biblioteca sobre valores concretos.

La interfaz gráfica y el llavero del sistema no forman parte de esta
compilación.
